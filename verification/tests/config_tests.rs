use config_center::config::{
    create_config_item, delete_config_item, list_config_items, update_config_item,
};
use config_center::env::create_environment;
use config_center::error::ConfigError;
use config_center::project::create_project;
use config_center::storage::Storage;
use config_center::value::{ConfigNumber, ConfigValue};

fn test_storage() -> Storage {
    Storage::new()
}

fn setup_project_env(storage: &mut Storage, project: &str, env: &str) {
    create_project(storage, project, None).unwrap();
    if env != "default" {
        create_environment(storage, project, env).unwrap();
    }
}

fn text(s: &str) -> ConfigValue {
    ConfigValue::String(s.to_string())
}

fn num(n: u64) -> ConfigValue {
    ConfigValue::Number(ConfigNumber::PosInt(n))
}

#[test]
fn test_create_config_item_string() {
    let mut storage = test_storage();
    setup_project_env(&mut storage, "app", "default");

    let item =
        create_config_item(&mut storage, "app", "default", "db_host", text("localhost")).unwrap();

    assert_eq!(item.key, "db_host");
    assert_eq!(item.value, text("localhost"));
}

#[test]
fn test_create_config_item_various_json_types() {
    let mut storage = test_storage();
    setup_project_env(&mut storage, "app", "default");

    let item = create_config_item(&mut storage, "app", "default", "port", num(8080)).unwrap();
    assert_eq!(item.value, num(8080));

    let item =
        create_config_item(&mut storage, "app", "default", "debug", ConfigValue::Bool(false))
            .unwrap();
    assert_eq!(item.value, ConfigValue::Bool(false));

    let item =
        create_config_item(&mut storage, "app", "default", "optional", ConfigValue::Null).unwrap();
    assert_eq!(item.value, ConfigValue::Null);

    let hosts = ConfigValue::Array(vec![text("a"), text("b")]);
    let item = create_config_item(&mut storage, "app", "default", "hosts", hosts.clone()).unwrap();
    assert_eq!(item.value, ConfigValue::Array(vec![text("a"), text("b")]));

    let db = ConfigValue::Object(vec![
        ("host".to_string(), text("localhost")),
        ("port".to_string(), num(5432)),
    ]);
    let item = create_config_item(&mut storage, "app", "default", "db", db.clone()).unwrap();
    assert_eq!(
        item.value,
        ConfigValue::Object(vec![
            ("host".to_string(), text("localhost")),
            ("port".to_string(), num(5432)),
        ])
    );
}

#[test]
fn test_create_config_item_duplicate_key() {
    let mut storage = test_storage();
    setup_project_env(&mut storage, "app", "default");

    create_config_item(&mut storage, "app", "default", "key1", text("v1")).unwrap();
    let err = create_config_item(&mut storage, "app", "default", "key1", text("v2")).unwrap_err();
    assert!(matches!(err, ConfigError::ConfigItemAlreadyExists(_)));
}

#[test]
fn test_create_config_item_project_not_found() {
    let mut storage = test_storage();
    let err = create_config_item(&mut storage, "nope", "default", "k", text("v")).unwrap_err();
    assert!(matches!(err, ConfigError::ProjectNotFound(_)));
}

#[test]
fn test_create_config_item_env_not_found() {
    let mut storage = test_storage();
    create_project(&mut storage, "app", None).unwrap();
    let err = create_config_item(&mut storage, "app", "nope", "k", text("v")).unwrap_err();
    assert!(matches!(err, ConfigError::EnvironmentNotFound(_)));
}

#[test]
fn test_update_config_item() {
    let mut storage = test_storage();
    setup_project_env(&mut storage, "app", "default");
    create_config_item(&mut storage, "app", "default", "key1", text("old")).unwrap();

    let updated = update_config_item(&mut storage, "app", "default", "key1", num(42)).unwrap();
    assert_eq!(updated.key, "key1");
    assert_eq!(updated.value, num(42));

    let items = list_config_items(&storage, "app", "default").unwrap();
    assert_eq!(items.len(), 1);
    assert_eq!(items[0].value, num(42));
}

#[test]
fn test_update_config_item_not_found() {
    let mut storage = test_storage();
    setup_project_env(&mut storage, "app", "default");

    let err = update_config_item(&mut storage, "app", "default", "nope", text("v")).unwrap_err();
    assert!(matches!(err, ConfigError::ConfigItemNotFound(_)));
}

#[test]
fn test_update_config_item_project_not_found() {
    let mut storage = test_storage();
    let err = update_config_item(&mut storage, "nope", "default", "k", text("v")).unwrap_err();
    assert!(matches!(err, ConfigError::ProjectNotFound(_)));
}

#[test]
fn test_update_config_item_env_not_found() {
    let mut storage = test_storage();
    create_project(&mut storage, "app", None).unwrap();
    let err = update_config_item(&mut storage, "app", "nope", "k", text("v")).unwrap_err();
    assert!(matches!(err, ConfigError::EnvironmentNotFound(_)));
}

#[test]
fn test_delete_config_item() {
    let mut storage = test_storage();
    setup_project_env(&mut storage, "app", "default");
    create_config_item(&mut storage, "app", "default", "key1", text("v")).unwrap();

    delete_config_item(&mut storage, "app", "default", "key1").unwrap();

    let items = list_config_items(&storage, "app", "default").unwrap();
    assert!(items.is_empty());
}

#[test]
fn test_delete_config_item_not_found() {
    let mut storage = test_storage();
    setup_project_env(&mut storage, "app", "default");

    let err = delete_config_item(&mut storage, "app", "default", "nope").unwrap_err();
    assert!(matches!(err, ConfigError::ConfigItemNotFound(_)));
}

#[test]
fn test_delete_config_item_project_not_found() {
    let mut storage = test_storage();
    let err = delete_config_item(&mut storage, "nope", "default", "k").unwrap_err();
    assert!(matches!(err, ConfigError::ProjectNotFound(_)));
}

#[test]
fn test_delete_config_item_env_not_found() {
    let mut storage = test_storage();
    create_project(&mut storage, "app", None).unwrap();
    let err = delete_config_item(&mut storage, "app", "nope", "k").unwrap_err();
    assert!(matches!(err, ConfigError::EnvironmentNotFound(_)));
}

#[test]
fn test_list_config_items() {
    let mut storage = test_storage();
    setup_project_env(&mut storage, "app", "default");

    assert!(list_config_items(&storage, "app", "default").unwrap().is_empty());

    create_config_item(&mut storage, "app", "default", "k1", text("v1")).unwrap();
    create_config_item(&mut storage, "app", "default", "k2", num(2)).unwrap();

    let items = list_config_items(&storage, "app", "default").unwrap();
    assert_eq!(items.len(), 2);
    assert_eq!(items[0].key, "k1");
    assert_eq!(items[1].key, "k2");
}

#[test]
fn test_list_config_items_project_not_found() {
    let storage = test_storage();
    let err = list_config_items(&storage, "nope", "default").unwrap_err();
    assert!(matches!(err, ConfigError::ProjectNotFound(_)));
}

#[test]
fn test_list_config_items_env_not_found() {
    let mut storage = test_storage();
    create_project(&mut storage, "app", None).unwrap();
    let err = list_config_items(&storage, "app", "nope").unwrap_err();
    assert!(matches!(err, ConfigError::EnvironmentNotFound(_)));
}

#[test]
fn config_test_persistence() {
    let document;
    {
        let mut storage = test_storage();
        setup_project_env(&mut storage, "app", "default");
        let nested = ConfigValue::Object(vec![("nested".to_string(), ConfigValue::Bool(true))]);
        create_config_item(&mut storage, "app", "default", "key1", nested).unwrap();
        document = storage.save().unwrap();
    }

    let storage = Storage::load(Some(&document)).unwrap();
    let items = list_config_items(&storage, "app", "default").unwrap();
    assert_eq!(items.len(), 1);
    assert_eq!(items[0].key, "key1");
    assert_eq!(
        items[0].value,
        ConfigValue::Object(vec![("nested".to_string(), ConfigValue::Bool(true))])
    );
}

#[test]
fn test_json_type_preserved_through_update() {
    let mut storage = test_storage();
    setup_project_env(&mut storage, "app", "default");

    create_config_item(&mut storage, "app", "default", "k", text("str")).unwrap();
    let updated = update_config_item(
        &mut storage,
        "app",
        "default",
        "k",
        ConfigValue::Array(vec![num(1), num(2), num(3)]),
    )
    .unwrap();
    assert!(matches!(updated.value, ConfigValue::Array(_)));
    assert_eq!(updated.value, ConfigValue::Array(vec![num(1), num(2), num(3)]));
}

#[test]
fn items_go_to_the_named_environment_only() {
    let mut storage = test_storage();
    setup_project_env(&mut storage, "a", "dev");
    setup_project_env(&mut storage, "b", "dev");
    create_config_item(&mut storage, "b", "dev", "k", text("v")).unwrap();
    assert!(list_config_items(&storage, "a", "default").unwrap().is_empty());
    assert!(list_config_items(&storage, "a", "dev").unwrap().is_empty());
    assert!(list_config_items(&storage, "b", "default").unwrap().is_empty());
    assert_eq!(list_config_items(&storage, "b", "dev").unwrap().len(), 1);
}

#[test]
fn update_keeps_the_place_of_the_item() {
    let mut storage = test_storage();
    setup_project_env(&mut storage, "app", "default");
    create_config_item(&mut storage, "app", "default", "a", num(1)).unwrap();
    create_config_item(&mut storage, "app", "default", "b", num(2)).unwrap();
    create_config_item(&mut storage, "app", "default", "c", num(3)).unwrap();
    update_config_item(&mut storage, "app", "default", "b", text("two")).unwrap();
    let items = list_config_items(&storage, "app", "default").unwrap();
    let keys: Vec<&str> = items.iter().map(|i| i.key.as_str()).collect();
    assert_eq!(keys, vec!["a", "b", "c"]);
    assert_eq!(items[1].value, text("two"));
}

#[test]
fn rollback_takes_each_item_mutation_back() {
    let mut storage = test_storage();
    setup_project_env(&mut storage, "app", "dev");
    create_config_item(&mut storage, "app", "dev", "a", num(1)).unwrap();
    create_config_item(&mut storage, "app", "dev", "b", num(2)).unwrap();
    create_config_item(&mut storage, "app", "dev", "c", num(3)).unwrap();
    storage.commit();
    let before = storage.state().clone();
    let exported = storage.save().unwrap();

    create_config_item(&mut storage, "app", "dev", "d", num(4)).unwrap();
    assert!(storage.rollback());
    assert_eq!(*storage.state(), before);

    update_config_item(&mut storage, "app", "dev", "b", text("two")).unwrap();
    assert_ne!(*storage.state(), before);
    assert!(storage.rollback());
    assert_eq!(*storage.state(), before);

    delete_config_item(&mut storage, "app", "dev", "b").unwrap();
    assert_eq!(list_config_items(&storage, "app", "dev").unwrap().len(), 2);
    assert!(storage.rollback());
    assert_eq!(*storage.state(), before);
    assert_eq!(storage.save().unwrap(), exported);
}

#[test]
fn failed_item_mutations_change_nothing_and_keep_the_journal() {
    let mut storage = test_storage();
    setup_project_env(&mut storage, "app", "default");
    create_config_item(&mut storage, "app", "default", "a", num(1)).unwrap();
    let before = storage.state().clone();
    let err = create_config_item(&mut storage, "app", "default", "a", num(2)).unwrap_err();
    assert_eq!(err.message(), "config item already exists: a");
    let err = update_config_item(&mut storage, "app", "default", "zz", num(2)).unwrap_err();
    assert_eq!(err.message(), "config item not found: zz");
    let err = delete_config_item(&mut storage, "app", "nope", "a").unwrap_err();
    assert_eq!(err.message(), "environment not found: nope");
    assert_eq!(*storage.state(), before);
    assert!(storage.has_pending());
}
