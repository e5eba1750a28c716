use config_center::codec::{decode_state, encode_state};
use config_center::error::ConfigError;
use config_center::models::{
    ApiKey, ConfigItem, ConfigState, Environment, Project, SharedGroup,
};
use config_center::project::{create_project, delete_project};
use config_center::storage::Storage;
use config_center::tree::Scope;
use config_center::undo::{apply_undo, Undo};
use config_center::value::ConfigValue;

#[test]
fn load_without_content_gives_an_empty_store() {
    for content in [None, Some("")] {
        let storage = Storage::load(content).unwrap();
        assert_eq!(*storage.state(), ConfigState::empty());
        assert!(!storage.has_pending());
    }
    assert_eq!(*Storage::new().state(), ConfigState::empty());
}

#[test]
fn load_refuses_what_is_no_document_with_a_map_at_its_root() {
    for content in ["{", "not json", "[1, 2]", "\"text\"", "null", "  "] {
        let err = Storage::load(Some(content)).unwrap_err();
        assert!(matches!(err, ConfigError::SerializationError(_)), "{}", content);
        assert_eq!(err.status_code(), 500);
    }
}

#[test]
fn load_takes_a_malformed_tree_as_absent() {
    for content in [
        "{}",
        "{\"projects\": 1, \"shared_group\": {\"environments\": []}, \"api_keys\": []}",
        "{\"projects\": [], \"api_keys\": []}",
        "{\"projects\": [{\"name\": \"a\"}], \"shared_group\": {\"environments\": []}, \"api_keys\": []}",
        "{\"projects\": [], \"shared_group\": {\"environments\": []}, \"api_keys\": [{\"key\": 1, \"project\": \"a\"}]}",
    ] {
        let storage = Storage::load(Some(content)).unwrap();
        assert_eq!(*storage.state(), ConfigState::empty(), "{}", content);
    }
}

#[test]
fn load_reads_a_tree_and_skips_unknown_fields() {
    let content = "{\"extra\": 1, \"api_keys\": [{\"project\": \"a\", \"key\": \"k\", \"x\": 0}], \"shared_group\": {\"environments\": [{\"name\": \"default\", \"config_items\": [{\"key\": \"n\", \"value\": null}]}]}, \"projects\": [{\"name\": \"a\", \"environments\": []}, {\"name\": \"b\", \"description\": \"d\", \"environments\": []}]}";
    let storage = Storage::load(Some(content)).unwrap();
    let state = storage.state();
    assert_eq!(state.api_keys, vec![ApiKey { key: "k".to_string(), project: "a".to_string() }]);
    assert_eq!(state.projects.len(), 2);
    assert_eq!(state.projects[0].description, None);
    assert_eq!(state.projects[1].description, Some("d".to_string()));
    assert_eq!(state.shared_group.environments[0].config_items[0].value, ConfigValue::Null);
}

#[test]
fn import_refuses_a_malformed_tree_and_changes_nothing() {
    let mut storage = Storage::new();
    create_project(&mut storage, "a", None).unwrap();
    let before = storage.state().clone();
    for content in ["", "{", "{}", "[]", "{\"projects\": [], \"api_keys\": []}"] {
        let err = storage.import(content).unwrap_err();
        assert!(matches!(err, ConfigError::SerializationError(_)), "{}", content);
        assert_eq!(*storage.state(), before);
    }
    assert!(storage.has_pending());
}

#[test]
fn import_replaces_the_whole_tree() {
    let mut storage = Storage::new();
    create_project(&mut storage, "a", None).unwrap();
    let mut other = Storage::new();
    create_project(&mut other, "b", Some("second")).unwrap();
    let document = other.save().unwrap();
    storage.import(&document).unwrap();
    assert_eq!(storage.state(), other.state());
    assert!(storage.has_pending());
    storage.commit();
    assert!(!storage.rollback());
    assert_eq!(storage.state(), other.state());
}

#[test]
fn replace_keeps_the_old_tree_for_rollback() {
    let mut storage = Storage::new();
    create_project(&mut storage, "a", None).unwrap();
    let before = storage.state().clone();
    storage.replace(ConfigState::empty());
    assert_eq!(*storage.state(), ConfigState::empty());
    assert!(storage.rollback());
    assert_eq!(*storage.state(), before);
    assert_eq!(storage.into_state(), before);
}

#[test]
fn state_mut_clears_the_journal() {
    let mut storage = Storage::new();
    create_project(&mut storage, "a", None).unwrap();
    assert!(storage.has_pending());
    storage.state_mut().projects[0].description = Some("edited".to_string());
    assert!(!storage.has_pending());
    assert!(!storage.rollback());
    assert_eq!(storage.state().projects.len(), 1);
}

#[test]
fn decode_reads_what_encode_wrote() {
    let state = ConfigState {
        projects: vec![Project {
            name: "p".to_string(),
            description: None,
            environments: vec![Environment { name: "e".to_string(), config_items: vec![] }],
        }],
        shared_group: SharedGroup { environments: vec![] },
        api_keys: vec![ApiKey { key: "k".to_string(), project: "p".to_string() }],
    };
    let document = encode_state(&state);
    assert_eq!(decode_state(&document), Some(state));
    assert_eq!(decode_state(&ConfigValue::Null), None);
    assert_eq!(
        document.field("shared_group").unwrap().field("environments"),
        Some(&ConfigValue::Array(vec![]))
    );
    assert!(document.field("missing").is_none());
}

#[test]
fn error_messages_and_statuses() {
    let cases = [
        (ConfigError::ProjectNotFound("a".to_string()), "project not found: a", 404),
        (ConfigError::ProjectAlreadyExists("a".to_string()), "project already exists: a", 500),
        (ConfigError::EnvironmentNotFound("a".to_string()), "environment not found: a", 404),
        (
            ConfigError::EnvironmentAlreadyExists("a".to_string()),
            "environment already exists: a",
            500,
        ),
        (ConfigError::ConfigItemNotFound("a".to_string()), "config item not found: a", 404),
        (
            ConfigError::ConfigItemAlreadyExists("a".to_string()),
            "config item already exists: a",
            500,
        ),
        (ConfigError::ApiKeyNotFound("a".to_string()), "api key not found: a", 500),
        (ConfigError::Unauthorized("a".to_string()), "unauthorized: a", 401),
        (ConfigError::Forbidden("a".to_string()), "forbidden: a", 403),
        (ConfigError::StorageError("a".to_string()), "storage error: a", 500),
        (ConfigError::SerializationError("a".to_string()), "serialization error: a", 500),
        (ConfigError::IoError("a".to_string()), "io error: a", 500),
    ];
    for (err, message, status) in cases {
        assert_eq!(err.message(), message);
        assert_eq!(err.status_code(), status);
        assert_eq!(err.detail(), "a");
    }
}

#[test]
fn an_undo_that_does_not_fit_leaves_the_tree_as_it_is() {
    let mut storage = Storage::new();
    create_project(&mut storage, "a", None).unwrap();
    let before = storage.state().clone();
    let item = || ConfigItem { key: "k".to_string(), value: ConfigValue::Null };
    let misfits = vec![
        Undo::DropLastEnvironment { scope: Scope::Project(7) },
        Undo::DropLastItem { scope: Scope::Project(0), environment: 3 },
        Undo::DropLastItem { scope: Scope::Project(0), environment: 0 },
        Undo::DropLastItem { scope: Scope::Shared, environment: 0 },
        Undo::RestoreItem { scope: Scope::Project(0), environment: 0, position: 1, item: item() },
        Undo::RestoreValue {
            scope: Scope::Project(0),
            environment: 0,
            index: 0,
            value: ConfigValue::Null,
        },
        Undo::RestoreApiKey {
            position: 1,
            key: ApiKey { key: "k".to_string(), project: "a".to_string() },
        },
        Undo::DropLastApiKey,
        Undo::RestoreEnvironment {
            scope: Scope::Shared,
            position: 1,
            env: Environment { name: "e".to_string(), config_items: vec![] },
        },
        Undo::RestoreProject {
            position: 2,
            project: before.projects[0].clone(),
            keys: vec![],
        },
    ];
    for undo in misfits {
        let mut state = before.clone();
        apply_undo(&mut state, undo);
        assert_eq!(state, before);
    }

    let mut state = before.clone();
    apply_undo(&mut state, Undo::RestoreItem {
        scope: Scope::Project(0),
        environment: 0,
        position: 0,
        item: item(),
    });
    assert_eq!(state.projects[0].environments[0].config_items, vec![item()]);
    apply_undo(&mut state, Undo::DropLastProject);
    assert!(state.projects.is_empty());
    apply_undo(&mut state, Undo::DropLastProject);
    assert!(state.projects.is_empty());
    apply_undo(&mut state, Undo::RestoreState(before.clone()));
    assert_eq!(state, before);
}

#[test]
fn settle_commits_or_rolls_back() {
    let mut storage = Storage::new();
    create_project(&mut storage, "a", None).unwrap();
    storage.commit();
    let before = storage.state().clone();

    let outcome = create_project(&mut storage, "b", None);
    let settled = storage.settle(outcome, Ok(())).unwrap();
    assert_eq!(settled.name, "b");
    assert_eq!(storage.state().projects.len(), 2);
    assert!(!storage.has_pending());

    let outcome = delete_project(&mut storage, "b");
    let err = storage.settle(outcome, Err(ConfigError::IoError("disk full".to_string()))).unwrap_err();
    assert_eq!(err.message(), "io error: disk full");
    assert_eq!(storage.state().projects.len(), 2);
    assert!(!storage.has_pending());

    let outcome = create_project(&mut storage, "b", None);
    let err =
        storage.settle(outcome, Err(ConfigError::StorageError("unused".to_string()))).unwrap_err();
    assert_eq!(err.message(), "project already exists: b");
    assert_eq!(storage.state().projects.len(), 2);

    let outcome = delete_project(&mut storage, "b");
    storage.settle(outcome, Ok(())).unwrap();
    assert_eq!(*storage.state(), before);
}

#[test]
fn well_formed_trees_hold_no_name_twice() {
    let env = |name: &str, keys: &[&str]| Environment {
        name: name.to_string(),
        config_items: keys
            .iter()
            .map(|k| ConfigItem { key: k.to_string(), value: ConfigValue::Null })
            .collect(),
    };
    let project = |name: &str, environments: Vec<Environment>| Project {
        name: name.to_string(),
        description: None,
        environments,
    };
    let key = |project: &str| ApiKey { key: "k".to_string(), project: project.to_string() };
    let good = ConfigState {
        projects: vec![
            project("a", vec![env("default", &["x", "y"]), env("prod", &["x"])]),
            project("b", vec![env("default", &[])]),
        ],
        shared_group: SharedGroup { environments: vec![env("default", &["x"])] },
        api_keys: vec![key("a"), key("b"), key("a")],
    };
    assert!(good.is_well_formed());
    assert!(ConfigState::empty().is_well_formed());

    let mut bad = good.clone();
    bad.projects.push(project("a", vec![]));
    assert!(!bad.is_well_formed());

    let mut bad = good.clone();
    bad.projects[0].environments.push(env("default", &[]));
    assert!(!bad.is_well_formed());

    let mut bad = good.clone();
    bad.projects[1].environments[0] = env("default", &["x", "y", "x"]);
    assert!(!bad.is_well_formed());

    let mut bad = good.clone();
    bad.shared_group.environments.push(env("default", &[]));
    assert!(!bad.is_well_formed());

    let mut bad = good.clone();
    bad.shared_group.environments[0] = env("default", &["x", "x"]);
    assert!(!bad.is_well_formed());

    let mut bad = good.clone();
    bad.api_keys.push(key("c"));
    assert!(!bad.is_well_formed());
}

#[test]
fn mutations_keep_a_tree_well_formed() {
    let mut storage = Storage::new();
    create_project(&mut storage, "a", None).unwrap();
    create_project(&mut storage, "b", None).unwrap();
    assert!(create_project(&mut storage, "a", None).is_err());
    delete_project(&mut storage, "a").unwrap();
    assert!(storage.state().is_well_formed());
    assert!(storage.rollback());
    assert!(storage.state().is_well_formed());
}
