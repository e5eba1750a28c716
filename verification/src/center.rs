//! The configuration center: the read-only face of a directory store. It
//! resolves configurations with variable substitution, turns them into
//! environment variables, and validates API keys.
use crate::directory::{dir_of, tree_of, ConfigDir, Storage};
use crate::error::{ConfigError, ErrorView};
use crate::export::{env_vars, export_script, is_export_of, to_env_vars};
use crate::merge::{merge_config, MergedConfig};
use crate::models::{
    find_api_key, has_key, lift, lookup, str_of, ConfigItem, ItemView, StateView,
};
use crate::substitute::{resolve_env_vars, resolved, Variables};
use crate::value::ConfigValue;
use vstd::prelude::*;

verus! {

/// The configuration center over a directory store.
#[derive(Debug)]
pub struct ConfigCenter {
    storage: Storage,
}

/// Items with the substitution applied to every value.
pub open spec fn resolved_items(items: Seq<ItemView>, vars: Seq<(Seq<char>, Seq<char>)>) -> Seq<
    ItemView,
> {
    Seq::new(items.len(), |i: int| ItemView { key: items[i].key, value: resolved(items[i].value, vars) })
}

impl StateView {
    /// The effective configuration of a project's environment, with the
    /// variables substituted.
    pub open spec fn resolve_with(
        self,
        project: Seq<char>,
        env: Seq<char>,
        vars: Seq<(Seq<char>, Seq<char>)>,
    ) -> Seq<ItemView> {
        resolved_items(self.resolve(project, env), vars)
    }

    /// Why one key cannot be resolved with substitution: the project is
    /// missing, else the environment is missing, else neither tier has the
    /// key.
    pub open spec fn resolve_with_error(
        self,
        project: Seq<char>,
        env: Seq<char>,
        key: Seq<char>,
        vars: Seq<(Seq<char>, Seq<char>)>,
    ) -> Option<ErrorView> {
        if self.environment_error(project, env) is Some {
            self.environment_error(project, env)
        } else if !has_key(self.resolve_with(project, env, vars), key) {
            Some(ErrorView::ConfigItemNotFound(key))
        } else {
            None
        }
    }
}

impl View for ConfigCenter {
    type V = StateView;

    closed spec fn view(&self) -> StateView {
        self.storage@
    }
}

impl ConfigCenter {
    /// A center over the tree that a configuration directory holds; `None`
    /// stands for a directory that does not exist. This never fails.
    pub fn new(config_dir: &str, dir: Option<&ConfigDir>) -> (r: Result<ConfigCenter, ConfigError>)
        ensures
            r matches Ok(c) && c@ == tree_of(dir_of(dir)),
            r matches Ok(c) ==> c@.wf(),
    {
        match Storage::load(config_dir, dir) {
            Ok(storage) => Ok(ConfigCenter { storage: storage }),
            Err(e) => Err(e),
        }
    }

    /// Replaces the whole tree by the tree that the configuration directory
    /// now holds. This never fails.
    pub fn reload(&mut self, config_dir: &str, dir: Option<&ConfigDir>) -> (r: Result<
        (),
        ConfigError,
    >)
        ensures
            r is Ok,
            final(self)@ == tree_of(dir_of(dir)),
            final(self)@.wf(),
    {
        match Storage::load(config_dir, dir) {
            Ok(storage) => {
                self.storage = storage;
                Ok(())
            },
            Err(e) => Err(e),
        }
    }

    /// The directory store behind the center.
    pub fn storage(&self) -> (r: &Storage)
        ensures
            r@ == self@,
    {
        &self.storage
    }

    /// The names of all projects, in their order.
    pub fn list_projects(&self) -> (r: Vec<&str>)
        ensures
            r@.len() == self@.projects.len(),
            forall|i: int| 0 <= i < r@.len() ==> (#[trigger] r@[i])@ == self@.projects[i].name,
    {
        let projects = &self.storage.state().projects;
        let mut out: Vec<&str> = Vec::new();
        let mut i: usize = 0;
        while i < projects.len()
            invariant
                i <= projects.len(),
                out@.len() == i,
                forall|j: int| 0 <= j < i ==> (#[trigger] out@[j])@ == projects@[j].name@,
            decreases projects.len() - i,
        {
            out.push(projects[i].name.as_str());
            i += 1;
        }
        out
    }

    /// The effective configuration of a project's environment: the shared
    /// items overlaid with the project's own, with `${NAME}` replaced in
    /// every string by the value of the variable `NAME` where it is set.
    ///
    /// Fails with `ProjectNotFound` where the project is missing, else with
    /// `EnvironmentNotFound` where the project has no environment of that
    /// name.
    pub fn get_merged_config(&self, project: &str, env: &str, vars: &Variables) -> (r: Result<
        MergedConfig,
        ConfigError,
    >)
        ensures
            r is Ok <==> self@.environment_error(project@, env@) is None,
            r matches Ok(m) ==> m@ == self@.resolve_with(project@, env@, vars@),
            r matches Err(e) ==> Some(e@) == self@.environment_error(project@, env@),
    {
        let merged = match merge_config(self.storage.state(), project, env) {
            Ok(m) => m,
            Err(e) => {
                return Err(e);
            },
        };
        let mut out: Vec<ConfigItem> = Vec::new();
        let mut i: usize = 0;
        while i < merged.entries.len()
            invariant
                i <= merged.entries.len(),
                out@.len() == i,
                forall|j: int|
                    0 <= j < i ==> (#[trigger] out@[j])@ == (ItemView {
                        key: merged.entries@[j].key@,
                        value: resolved(merged.entries@[j].value@, vars@),
                    }),
            decreases merged.entries.len() - i,
        {
            out.push(
                ConfigItem {
                    key: merged.entries[i].key.clone(),
                    value: resolve_env_vars(&merged.entries[i].value, vars),
                },
            );
            i += 1;
        }
        assert(lift(out@) =~= resolved_items(merged@, vars@));
        Ok(MergedConfig { entries: out })
    }

    /// One key of the effective configuration of a project's environment,
    /// with the variables substituted.
    ///
    /// Fails with `ProjectNotFound` where the project is missing, else with
    /// `EnvironmentNotFound` where the project has no environment of that
    /// name, else with `ConfigItemNotFound` where neither tier has the key.
    pub fn get_merged_config_item(
        &self,
        project: &str,
        env: &str,
        key: &str,
        vars: &Variables,
    ) -> (r: Result<ConfigValue, ConfigError>)
        ensures
            r is Ok <==> self@.resolve_with_error(project@, env@, key@, vars@) is None,
            r matches Ok(v) ==> v@ == lookup(self@.resolve_with(project@, env@, vars@), key@).value,
            r matches Err(e) ==> Some(e@) == self@.resolve_with_error(
                project@,
                env@,
                key@,
                vars@,
            ),
    {
        let merged = match self.get_merged_config(project, env, vars) {
            Ok(m) => m,
            Err(e) => {
                return Err(e);
            },
        };
        match merged.get(key) {
            Some(v) => Ok(v.clone()),
            None => Err(ConfigError::ConfigItemNotFound(key.to_owned())),
        }
    }

    /// The project that an API key authorizes, and the key as it is stored.
    ///
    /// Fails with `Unauthorized` where no key has this token; the error
    /// does not tell which keys exist.
    pub fn validate_api_key(&self, key: &str) -> (r: Result<(&str, &str), ConfigError>)
        ensures
            r is Ok <==> has_key(self@.api_keys, key@),
            r matches Ok(found) ==> {
                &&& found.0@ == lookup(self@.api_keys, key@).project
                &&& found.1@ == key@
            },
            r matches Err(e) ==> e@ == ErrorView::Unauthorized("invalid api key"@),
    {
        let keys = &self.storage.state().api_keys;
        match find_api_key(keys, key) {
            Some(i) => Ok((keys[i].project.as_str(), keys[i].key.as_str())),
            None => Err(ConfigError::Unauthorized("invalid api key".to_owned())),
        }
    }

    /// The effective configuration under the names of environment
    /// variables: each key in upper case with `.` and `-` replaced by `_`,
    /// after the prefix where one is given.
    ///
    /// Fails as `get_merged_config` does.
    pub fn get_env_vars(
        &self,
        project: &str,
        env: &str,
        prefix: Option<&str>,
        vars: &Variables,
    ) -> (r: Result<MergedConfig, ConfigError>)
        ensures
            r is Ok <==> self@.environment_error(project@, env@) is None,
            r matches Ok(m) ==> m@ == env_vars(
                self@.resolve_with(project@, env@, vars@),
                str_of(prefix),
            ),
            r matches Err(e) ==> Some(e@) == self@.environment_error(project@, env@),
    {
        match self.get_merged_config(project, env, vars) {
            Ok(m) => Ok(to_env_vars(&m, prefix)),
            Err(e) => Err(e),
        }
    }

    /// The effective configuration as a shell script: one `export` line
    /// for each environment variable, sorted, joined by line feeds.
    ///
    /// Fails as `get_merged_config` does.
    pub fn get_env_export(
        &self,
        project: &str,
        env: &str,
        prefix: Option<&str>,
        vars: &Variables,
    ) -> (r: Result<String, ConfigError>)
        ensures
            r is Ok <==> self@.environment_error(project@, env@) is None,
            r matches Ok(text) ==> is_export_of(
                text@,
                env_vars(self@.resolve_with(project@, env@, vars@), str_of(prefix)),
            ),
            r matches Err(e) ==> Some(e@) == self@.environment_error(project@, env@),
    {
        match self.get_env_vars(project, env, prefix, vars) {
            Ok(m) => Ok(export_script(&m)),
            Err(e) => Err(e),
        }
    }
}

} // verus!
