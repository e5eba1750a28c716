use config_center::config::create_config_item;
use config_center::error::ConfigError;
use config_center::merge::{get_merged_config, get_merged_config_item};
use config_center::models::Environment;
use config_center::project::create_project;
use config_center::shared::{
    create_shared_item, delete_shared_item, list_shared_items, update_shared_item,
};
use config_center::storage::Storage;
use config_center::value::{ConfigNumber, ConfigValue};

fn test_storage() -> Storage {
    Storage::new()
}

fn setup_shared_env(storage: &mut Storage, env_name: &str) {
    storage.state_mut().shared_group.environments.push(Environment {
        name: env_name.to_string(),
        config_items: vec![],
    });
    storage.save().unwrap();
}

fn text(s: &str) -> ConfigValue {
    ConfigValue::String(s.to_string())
}

fn num(n: u64) -> ConfigValue {
    ConfigValue::Number(ConfigNumber::PosInt(n))
}

#[test]
fn test_create_shared_item() {
    let mut storage = test_storage();
    setup_shared_env(&mut storage, "default");

    let item = create_shared_item(&mut storage, "default", "log_level", text("info")).unwrap();
    assert_eq!(item.key, "log_level");
    assert_eq!(item.value, text("info"));

    let items = list_shared_items(&storage, "default").unwrap();
    assert_eq!(items.len(), 1);
    assert_eq!(items[0].key, "log_level");
}

#[test]
fn test_create_shared_item_duplicate_key() {
    let mut storage = test_storage();
    setup_shared_env(&mut storage, "default");

    create_shared_item(&mut storage, "default", "k", text("v")).unwrap();
    let err = create_shared_item(&mut storage, "default", "k", text("v2")).unwrap_err();
    assert!(matches!(err, ConfigError::ConfigItemAlreadyExists(_)));
}

#[test]
fn test_create_shared_item_env_not_found() {
    let mut storage = test_storage();
    let err = create_shared_item(&mut storage, "nope", "k", text("v")).unwrap_err();
    assert!(matches!(err, ConfigError::EnvironmentNotFound(_)));
}

#[test]
fn test_update_shared_item() {
    let mut storage = test_storage();
    setup_shared_env(&mut storage, "default");
    create_shared_item(&mut storage, "default", "k", text("old")).unwrap();

    let updated = update_shared_item(&mut storage, "default", "k", num(42)).unwrap();
    assert_eq!(updated.value, num(42));

    let items = list_shared_items(&storage, "default").unwrap();
    assert_eq!(items[0].value, num(42));
}

#[test]
fn test_update_shared_item_not_found() {
    let mut storage = test_storage();
    setup_shared_env(&mut storage, "default");

    let err = update_shared_item(&mut storage, "default", "nope", text("v")).unwrap_err();
    assert!(matches!(err, ConfigError::ConfigItemNotFound(_)));
}

#[test]
fn test_update_shared_item_env_not_found() {
    let mut storage = test_storage();
    let err = update_shared_item(&mut storage, "nope", "k", text("v")).unwrap_err();
    assert!(matches!(err, ConfigError::EnvironmentNotFound(_)));
}

#[test]
fn test_delete_shared_item() {
    let mut storage = test_storage();
    setup_shared_env(&mut storage, "default");
    create_shared_item(&mut storage, "default", "k", text("v")).unwrap();

    delete_shared_item(&mut storage, "default", "k").unwrap();
    assert!(list_shared_items(&storage, "default").unwrap().is_empty());
}

#[test]
fn test_delete_shared_item_not_found() {
    let mut storage = test_storage();
    setup_shared_env(&mut storage, "default");

    let err = delete_shared_item(&mut storage, "default", "nope").unwrap_err();
    assert!(matches!(err, ConfigError::ConfigItemNotFound(_)));
}

#[test]
fn test_delete_shared_item_env_not_found() {
    let mut storage = test_storage();
    let err = delete_shared_item(&mut storage, "nope", "k").unwrap_err();
    assert!(matches!(err, ConfigError::EnvironmentNotFound(_)));
}

#[test]
fn test_list_shared_items_empty() {
    let mut storage = test_storage();
    setup_shared_env(&mut storage, "default");

    let items = list_shared_items(&storage, "default").unwrap();
    assert!(items.is_empty());
}

#[test]
fn test_list_shared_items_env_not_found() {
    let storage = test_storage();
    let err = list_shared_items(&storage, "nope").unwrap_err();
    assert!(matches!(err, ConfigError::EnvironmentNotFound(_)));
}

#[test]
fn test_get_merged_config_project_only() {
    let mut storage = test_storage();
    create_project(&mut storage, "app", None).unwrap();
    create_config_item(&mut storage, "app", "default", "db_host", text("localhost")).unwrap();

    let merged = get_merged_config(&storage, "app", "default").unwrap();
    assert_eq!(merged.len(), 1);
    assert_eq!(*merged.get("db_host").unwrap(), text("localhost"));
}

#[test]
fn test_get_merged_config_shared_only() {
    let mut storage = test_storage();
    create_project(&mut storage, "app", None).unwrap();
    setup_shared_env(&mut storage, "default");
    create_shared_item(&mut storage, "default", "log_level", text("info")).unwrap();

    let merged = get_merged_config(&storage, "app", "default").unwrap();
    assert_eq!(merged.len(), 1);
    assert_eq!(*merged.get("log_level").unwrap(), text("info"));
}

#[test]
fn test_get_merged_config_project_overrides_shared() {
    let mut storage = test_storage();
    create_project(&mut storage, "app", None).unwrap();
    setup_shared_env(&mut storage, "default");

    create_shared_item(&mut storage, "default", "log_level", text("info")).unwrap();
    create_shared_item(&mut storage, "default", "timeout", num(30)).unwrap();

    create_config_item(&mut storage, "app", "default", "log_level", text("debug")).unwrap();
    create_config_item(&mut storage, "app", "default", "db_host", text("localhost")).unwrap();

    let merged = get_merged_config(&storage, "app", "default").unwrap();
    assert_eq!(merged.len(), 3);
    assert_eq!(*merged.get("log_level").unwrap(), text("debug"));
    assert_eq!(*merged.get("timeout").unwrap(), num(30));
    assert_eq!(*merged.get("db_host").unwrap(), text("localhost"));
}

#[test]
fn test_get_merged_config_no_shared_env() {
    let mut storage = test_storage();
    create_project(&mut storage, "app", None).unwrap();
    create_config_item(&mut storage, "app", "default", "k", text("v")).unwrap();

    let merged = get_merged_config(&storage, "app", "default").unwrap();
    assert_eq!(merged.len(), 1);
    assert_eq!(*merged.get("k").unwrap(), text("v"));
}

#[test]
fn test_get_merged_config_project_not_found() {
    let storage = test_storage();
    let err = get_merged_config(&storage, "nope", "default").unwrap_err();
    assert!(matches!(err, ConfigError::ProjectNotFound(_)));
}

#[test]
fn test_get_merged_config_env_not_found() {
    let mut storage = test_storage();
    create_project(&mut storage, "app", None).unwrap();

    let err = get_merged_config(&storage, "app", "nope").unwrap_err();
    assert!(matches!(err, ConfigError::EnvironmentNotFound(_)));
}

#[test]
fn test_get_merged_config_item_from_project() {
    let mut storage = test_storage();
    create_project(&mut storage, "app", None).unwrap();
    create_config_item(&mut storage, "app", "default", "db_host", text("localhost")).unwrap();

    let val = get_merged_config_item(&storage, "app", "default", "db_host").unwrap();
    assert_eq!(val, text("localhost"));
}

#[test]
fn test_get_merged_config_item_from_shared() {
    let mut storage = test_storage();
    create_project(&mut storage, "app", None).unwrap();
    setup_shared_env(&mut storage, "default");
    create_shared_item(&mut storage, "default", "log_level", text("info")).unwrap();

    let val = get_merged_config_item(&storage, "app", "default", "log_level").unwrap();
    assert_eq!(val, text("info"));
}

#[test]
fn test_get_merged_config_item_project_overrides() {
    let mut storage = test_storage();
    create_project(&mut storage, "app", None).unwrap();
    setup_shared_env(&mut storage, "default");

    create_shared_item(&mut storage, "default", "log_level", text("info")).unwrap();
    create_config_item(&mut storage, "app", "default", "log_level", text("debug")).unwrap();

    let val = get_merged_config_item(&storage, "app", "default", "log_level").unwrap();
    assert_eq!(val, text("debug"));
}

#[test]
fn test_get_merged_config_item_not_found() {
    let mut storage = test_storage();
    create_project(&mut storage, "app", None).unwrap();

    let err = get_merged_config_item(&storage, "app", "default", "nope").unwrap_err();
    assert!(matches!(err, ConfigError::ConfigItemNotFound(_)));
}

#[test]
fn test_get_merged_config_item_project_not_found() {
    let storage = test_storage();
    let err = get_merged_config_item(&storage, "nope", "default", "k").unwrap_err();
    assert!(matches!(err, ConfigError::ProjectNotFound(_)));
}

#[test]
fn test_shared_persistence() {
    let document;
    {
        let mut storage = test_storage();
        setup_shared_env(&mut storage, "default");
        create_shared_item(&mut storage, "default", "log_level", text("info")).unwrap();
        document = storage.save().unwrap();
    }

    let storage = Storage::load(Some(&document)).unwrap();
    let items = list_shared_items(&storage, "default").unwrap();
    assert_eq!(items.len(), 1);
    assert_eq!(items[0].key, "log_level");
    assert_eq!(items[0].value, text("info"));
}

#[test]
fn merge_keeps_shared_order_then_project_order() {
    let mut storage = test_storage();
    create_project(&mut storage, "app", None).unwrap();
    setup_shared_env(&mut storage, "default");
    create_shared_item(&mut storage, "default", "b", num(1)).unwrap();
    create_shared_item(&mut storage, "default", "a", num(2)).unwrap();
    create_config_item(&mut storage, "app", "default", "z", num(3)).unwrap();
    create_config_item(&mut storage, "app", "default", "b", num(4)).unwrap();
    let merged = get_merged_config(&storage, "app", "default").unwrap();
    let keys: Vec<&str> = merged.entries.iter().map(|i| i.key.as_str()).collect();
    assert_eq!(keys, vec!["b", "a", "z"]);
    assert_eq!(*merged.get("b").unwrap(), num(4));
    assert!(merged.contains_key("a"));
    assert!(!merged.contains_key("c"));
    assert!(merged.get("c").is_none());
    assert!(!merged.is_empty());
}

#[test]
fn environment_existence_is_checked_against_the_project_only() {
    let mut storage = test_storage();
    create_project(&mut storage, "app", None).unwrap();
    setup_shared_env(&mut storage, "staging");
    create_shared_item(&mut storage, "staging", "k", num(1)).unwrap();
    let err = get_merged_config(&storage, "app", "staging").unwrap_err();
    assert_eq!(err.message(), "environment not found: staging");
    let err = get_merged_config_item(&storage, "app", "default", "k").unwrap_err();
    assert_eq!(err.message(), "config item not found: k");
}

#[test]
fn rollback_takes_each_shared_mutation_back() {
    let mut storage = test_storage();
    setup_shared_env(&mut storage, "default");
    setup_shared_env(&mut storage, "prod");
    create_shared_item(&mut storage, "prod", "a", num(1)).unwrap();
    create_shared_item(&mut storage, "prod", "b", num(2)).unwrap();
    let before = storage.state().clone();

    create_shared_item(&mut storage, "prod", "c", num(3)).unwrap();
    assert!(storage.rollback());
    assert_eq!(*storage.state(), before);

    update_shared_item(&mut storage, "prod", "a", text("one")).unwrap();
    assert!(storage.rollback());
    assert_eq!(*storage.state(), before);

    delete_shared_item(&mut storage, "prod", "a").unwrap();
    assert!(storage.rollback());
    assert_eq!(*storage.state(), before);
}
