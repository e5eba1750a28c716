use config_center::api_key::{
    generate_api_key, issue_api_key, list_api_keys, revoke_api_key, validate_api_key,
};
use config_center::error::ConfigError;
use config_center::project::create_project;
use config_center::storage::Storage;

fn test_storage() -> Storage {
    Storage::new()
}

#[test]
fn test_generate_api_key() {
    let mut storage = test_storage();
    create_project(&mut storage, "app", None).unwrap();

    let key = generate_api_key(&mut storage, "app").unwrap();
    assert_eq!(key.project, "app");
    assert!(!key.key.is_empty());
    assert_eq!(key.key.len(), 36);
}

#[test]
fn test_generate_api_key_project_not_found() {
    let mut storage = test_storage();
    let err = generate_api_key(&mut storage, "nope").unwrap_err();
    assert!(matches!(err, ConfigError::ProjectNotFound(_)));
}

#[test]
fn test_generate_multiple_keys() {
    let mut storage = test_storage();
    create_project(&mut storage, "app", None).unwrap();

    let k1 = generate_api_key(&mut storage, "app").unwrap();
    let k2 = generate_api_key(&mut storage, "app").unwrap();
    assert_ne!(k1.key, k2.key);

    let keys = list_api_keys(&storage, "app").unwrap();
    assert_eq!(keys.len(), 2);
}

#[test]
fn test_revoke_api_key() {
    let mut storage = test_storage();
    create_project(&mut storage, "app", None).unwrap();

    let key = generate_api_key(&mut storage, "app").unwrap();
    revoke_api_key(&mut storage, &key.key).unwrap();

    let keys = list_api_keys(&storage, "app").unwrap();
    assert!(keys.is_empty());
}

#[test]
fn test_revoke_api_key_not_found() {
    let mut storage = test_storage();
    let err = revoke_api_key(&mut storage, "nonexistent").unwrap_err();
    assert!(matches!(err, ConfigError::ApiKeyNotFound(_)));
}

#[test]
fn test_list_api_keys_empty() {
    let mut storage = test_storage();
    create_project(&mut storage, "app", None).unwrap();

    let keys = list_api_keys(&storage, "app").unwrap();
    assert!(keys.is_empty());
}

#[test]
fn test_list_api_keys_filters_by_project() {
    let mut storage = test_storage();
    create_project(&mut storage, "app1", None).unwrap();
    create_project(&mut storage, "app2", None).unwrap();

    generate_api_key(&mut storage, "app1").unwrap();
    generate_api_key(&mut storage, "app1").unwrap();
    generate_api_key(&mut storage, "app2").unwrap();

    let keys1 = list_api_keys(&storage, "app1").unwrap();
    assert_eq!(keys1.len(), 2);
    assert!(keys1.iter().all(|k| k.project == "app1"));

    let keys2 = list_api_keys(&storage, "app2").unwrap();
    assert_eq!(keys2.len(), 1);
    assert_eq!(keys2[0].project, "app2");
}

#[test]
fn test_list_api_keys_project_not_found() {
    let storage = test_storage();
    let err = list_api_keys(&storage, "nope").unwrap_err();
    assert!(matches!(err, ConfigError::ProjectNotFound(_)));
}

#[test]
fn test_validate_api_key() {
    let mut storage = test_storage();
    create_project(&mut storage, "app", None).unwrap();

    let key = generate_api_key(&mut storage, "app").unwrap();
    let validated = validate_api_key(&storage, &key.key).unwrap();
    assert_eq!(validated.key, key.key);
    assert_eq!(validated.project, "app");
}

#[test]
fn test_validate_api_key_not_found() {
    let storage = test_storage();
    let err = validate_api_key(&storage, "invalid-key").unwrap_err();
    assert!(matches!(err, ConfigError::Unauthorized(_)));
    assert!(!err.message().contains("invalid-key"));
}

#[test]
fn test_validate_revoked_key() {
    let mut storage = test_storage();
    create_project(&mut storage, "app", None).unwrap();

    let key = generate_api_key(&mut storage, "app").unwrap();
    revoke_api_key(&mut storage, &key.key).unwrap();

    let err = validate_api_key(&storage, &key.key).unwrap_err();
    assert!(matches!(err, ConfigError::Unauthorized(_)));
    assert!(!err.message().contains(key.key.as_str()));
}

#[test]
fn api_key_test_persistence() {
    let key_str;
    let document;
    {
        let mut storage = test_storage();
        create_project(&mut storage, "app", None).unwrap();
        let key = generate_api_key(&mut storage, "app").unwrap();
        key_str = key.key.clone();
        document = storage.save().unwrap();
    }

    let storage = Storage::load(Some(&document)).unwrap();
    let validated = validate_api_key(&storage, &key_str).unwrap();
    assert_eq!(validated.project, "app");
}

#[test]
fn generated_key_has_the_hyphenated_form() {
    let mut storage = test_storage();
    create_project(&mut storage, "app", None).unwrap();
    let key = generate_api_key(&mut storage, "app").unwrap();
    let chars: Vec<char> = key.key.chars().collect();
    assert_eq!(chars.len(), 36);
    for (i, c) in chars.iter().enumerate() {
        if i == 8 || i == 13 || i == 18 || i == 23 {
            assert_eq!(*c, '-');
        } else {
            assert!(c.is_ascii_hexdigit());
        }
    }
    assert_eq!(chars[14], '4');
}

#[test]
fn issue_api_key_binds_the_given_token() {
    let mut storage = test_storage();
    create_project(&mut storage, "app", None).unwrap();
    let key = issue_api_key(&mut storage, "app", "token-1".to_string()).unwrap();
    assert_eq!(key.key, "token-1");
    assert_eq!(key.project, "app");
    assert_eq!(storage.state().api_keys.len(), 1);
    assert_eq!(storage.state().api_keys[0], key);
    let err = issue_api_key(&mut storage, "nope", "token-2".to_string()).unwrap_err();
    assert_eq!(err.message(), "project not found: nope");
    assert_eq!(storage.state().api_keys.len(), 1);
}

#[test]
fn rollback_restores_revoked_key_in_place() {
    let mut storage = test_storage();
    create_project(&mut storage, "app", None).unwrap();
    issue_api_key(&mut storage, "app", "a".to_string()).unwrap();
    issue_api_key(&mut storage, "app", "b".to_string()).unwrap();
    issue_api_key(&mut storage, "app", "c".to_string()).unwrap();
    let before = storage.state().clone();
    revoke_api_key(&mut storage, "b").unwrap();
    let keys: Vec<&str> = storage.state().api_keys.iter().map(|k| k.key.as_str()).collect();
    assert_eq!(keys, vec!["a", "c"]);
    assert!(storage.rollback());
    assert_eq!(*storage.state(), before);
}

#[test]
fn rollback_takes_issued_key_back() {
    let mut storage = test_storage();
    create_project(&mut storage, "app", None).unwrap();
    issue_api_key(&mut storage, "app", "a".to_string()).unwrap();
    let before = storage.state().clone();
    issue_api_key(&mut storage, "app", "b".to_string()).unwrap();
    assert!(storage.rollback());
    assert_eq!(*storage.state(), before);
}

#[test]
fn revoke_removes_the_first_key_with_the_token() {
    let mut storage = test_storage();
    create_project(&mut storage, "a", None).unwrap();
    create_project(&mut storage, "b", None).unwrap();
    issue_api_key(&mut storage, "a", "same".to_string()).unwrap();
    issue_api_key(&mut storage, "b", "same".to_string()).unwrap();
    assert_eq!(validate_api_key(&storage, "same").unwrap().project, "a");
    revoke_api_key(&mut storage, "same").unwrap();
    assert_eq!(validate_api_key(&storage, "same").unwrap().project, "b");
    let err = revoke_api_key(&mut storage, "other").unwrap_err();
    assert_eq!(err.message(), "api key not found: other");
}
