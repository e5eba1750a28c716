use config_center::env::{create_environment, delete_environment, list_environments};
use config_center::error::ConfigError;
use config_center::models::ConfigItem;
use config_center::project::create_project;
use config_center::storage::Storage;
use config_center::value::{ConfigNumber, ConfigValue};

fn test_storage() -> Storage {
    Storage::new()
}

fn reloaded(storage: &Storage) -> Storage {
    let document = storage.save().unwrap();
    Storage::load(Some(&document)).unwrap()
}

#[test]
fn test_create_environment() {
    let mut storage = test_storage();
    create_project(&mut storage, "app", None).unwrap();

    let env = create_environment(&mut storage, "app", "staging").unwrap();
    assert_eq!(env.name, "staging");
    assert!(env.config_items.is_empty());

    let envs = list_environments(&storage, "app").unwrap();
    assert_eq!(envs.len(), 2);
    assert_eq!(envs[1].name, "staging");
}

#[test]
fn test_create_environment_duplicate() {
    let mut storage = test_storage();
    create_project(&mut storage, "app", None).unwrap();

    create_environment(&mut storage, "app", "prod").unwrap();
    let err = create_environment(&mut storage, "app", "prod").unwrap_err();
    assert!(matches!(err, ConfigError::EnvironmentAlreadyExists(_)));
}

#[test]
fn test_create_environment_duplicate_default() {
    let mut storage = test_storage();
    create_project(&mut storage, "app", None).unwrap();

    let err = create_environment(&mut storage, "app", "default").unwrap_err();
    assert!(matches!(err, ConfigError::EnvironmentAlreadyExists(_)));
}

#[test]
fn test_create_environment_project_not_found() {
    let mut storage = test_storage();
    let err = create_environment(&mut storage, "nope", "dev").unwrap_err();
    assert!(matches!(err, ConfigError::ProjectNotFound(_)));
}

#[test]
fn test_list_environments() {
    let mut storage = test_storage();
    create_project(&mut storage, "app", None).unwrap();

    let envs = list_environments(&storage, "app").unwrap();
    assert_eq!(envs.len(), 1);
    assert_eq!(envs[0].name, "default");

    create_environment(&mut storage, "app", "dev").unwrap();
    create_environment(&mut storage, "app", "prod").unwrap();

    let envs = list_environments(&storage, "app").unwrap();
    assert_eq!(envs.len(), 3);
}

#[test]
fn test_list_environments_project_not_found() {
    let storage = test_storage();
    let err = list_environments(&storage, "nope").unwrap_err();
    assert!(matches!(err, ConfigError::ProjectNotFound(_)));
}

#[test]
fn test_delete_environment() {
    let mut storage = test_storage();
    create_project(&mut storage, "app", None).unwrap();
    create_environment(&mut storage, "app", "staging").unwrap();

    delete_environment(&mut storage, "app", "staging").unwrap();

    let envs = list_environments(&storage, "app").unwrap();
    assert_eq!(envs.len(), 1);
    assert_eq!(envs[0].name, "default");
}

#[test]
fn test_delete_environment_with_config_items() {
    let mut storage = test_storage();
    create_project(&mut storage, "app", None).unwrap();
    create_environment(&mut storage, "app", "dev").unwrap();

    let proj = storage
        .state_mut()
        .projects
        .iter_mut()
        .find(|p| p.name == "app")
        .unwrap();
    let env = proj.environments.iter_mut().find(|e| e.name == "dev").unwrap();
    env.config_items.push(ConfigItem {
        key: "key1".to_string(),
        value: ConfigValue::String("value1".to_string()),
    });
    env.config_items.push(ConfigItem {
        key: "key2".to_string(),
        value: ConfigValue::Number(ConfigNumber::PosInt(42)),
    });
    storage.save().unwrap();

    delete_environment(&mut storage, "app", "dev").unwrap();

    let envs = list_environments(&storage, "app").unwrap();
    assert_eq!(envs.len(), 1);
    assert_eq!(envs[0].name, "default");
}

#[test]
fn test_delete_environment_not_found() {
    let mut storage = test_storage();
    create_project(&mut storage, "app", None).unwrap();

    let err = delete_environment(&mut storage, "app", "nope").unwrap_err();
    assert!(matches!(err, ConfigError::EnvironmentNotFound(_)));
}

#[test]
fn test_delete_environment_project_not_found() {
    let mut storage = test_storage();
    let err = delete_environment(&mut storage, "nope", "dev").unwrap_err();
    assert!(matches!(err, ConfigError::ProjectNotFound(_)));
}

#[test]
fn test_persistence_after_create() {
    let saved;
    {
        let mut storage = test_storage();
        create_project(&mut storage, "app", None).unwrap();
        create_environment(&mut storage, "app", "prod").unwrap();
        saved = reloaded(&storage);
    }

    let storage = saved;
    let envs = list_environments(&storage, "app").unwrap();
    assert_eq!(envs.len(), 2);
    assert_eq!(envs[0].name, "default");
    assert_eq!(envs[1].name, "prod");
}

#[test]
fn test_persistence_after_delete() {
    let saved;
    {
        let mut storage = test_storage();
        create_project(&mut storage, "app", None).unwrap();
        create_environment(&mut storage, "app", "staging").unwrap();
        delete_environment(&mut storage, "app", "staging").unwrap();
        saved = reloaded(&storage);
    }

    let storage = saved;
    let envs = list_environments(&storage, "app").unwrap();
    assert_eq!(envs.len(), 1);
    assert_eq!(envs[0].name, "default");
}

#[test]
fn rollback_restores_deleted_environment_in_place() {
    let mut storage = test_storage();
    create_project(&mut storage, "app", None).unwrap();
    create_environment(&mut storage, "app", "dev").unwrap();
    create_environment(&mut storage, "app", "prod").unwrap();
    storage.state_mut().projects[0].environments[1].config_items.push(ConfigItem {
        key: "k".to_string(),
        value: ConfigValue::Bool(true),
    });
    let before = storage.state().clone();
    delete_environment(&mut storage, "app", "dev").unwrap();
    assert_eq!(list_environments(&storage, "app").unwrap().len(), 2);
    assert!(storage.rollback());
    assert_eq!(*storage.state(), before);
}

#[test]
fn rollback_takes_created_environment_back() {
    let mut storage = test_storage();
    create_project(&mut storage, "a", None).unwrap();
    create_project(&mut storage, "b", None).unwrap();
    let before = storage.state().clone();
    create_environment(&mut storage, "b", "dev").unwrap();
    assert_eq!(storage.state().projects[0].environments.len(), 1);
    assert_eq!(storage.state().projects[1].environments.len(), 2);
    assert!(storage.rollback());
    assert_eq!(*storage.state(), before);
}

#[test]
fn failed_environment_mutations_change_nothing() {
    let mut storage = test_storage();
    create_project(&mut storage, "app", None).unwrap();
    let before = storage.state().clone();
    let err = create_environment(&mut storage, "app", "default").unwrap_err();
    assert_eq!(err.message(), "environment already exists: default");
    let err = delete_environment(&mut storage, "app", "nope").unwrap_err();
    assert_eq!(err.message(), "environment not found: nope");
    let err = delete_environment(&mut storage, "nope", "default").unwrap_err();
    assert_eq!(err.message(), "project not found: nope");
    assert_eq!(*storage.state(), before);
}
