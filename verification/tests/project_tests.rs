use config_center::error::ConfigError;
use config_center::models::ApiKey;
use config_center::project::{create_project, delete_project, list_projects};
use config_center::storage::Storage;

fn test_storage() -> Storage {
    Storage::new()
}

#[test]
fn test_create_project_basic() {
    let mut storage = test_storage();
    let project = create_project(&mut storage, "my-app", Some("desc")).unwrap();

    assert_eq!(project.name, "my-app");
    assert_eq!(project.description, Some("desc".to_string()));
    assert_eq!(project.environments.len(), 1);
    assert_eq!(project.environments[0].name, "default");
}

#[test]
fn project_test_create_project_duplicate() {
    let mut storage = test_storage();
    create_project(&mut storage, "my-app", None).unwrap();

    let err = create_project(&mut storage, "my-app", None).unwrap_err();
    assert!(matches!(err, ConfigError::ProjectAlreadyExists(_)));
}

#[test]
fn test_list_projects() {
    let mut storage = test_storage();
    assert!(list_projects(&storage).is_empty());

    create_project(&mut storage, "a", None).unwrap();
    create_project(&mut storage, "b", None).unwrap();

    let projects = list_projects(&storage);
    assert_eq!(projects.len(), 2);
    assert_eq!(projects[0].name, "a");
    assert_eq!(projects[1].name, "b");
}

#[test]
fn test_delete_project() {
    let mut storage = test_storage();
    create_project(&mut storage, "my-app", None).unwrap();

    delete_project(&mut storage, "my-app").unwrap();
    assert!(list_projects(&storage).is_empty());
}

#[test]
fn test_delete_project_not_found() {
    let mut storage = test_storage();
    let err = delete_project(&mut storage, "nope").unwrap_err();
    assert!(matches!(err, ConfigError::ProjectNotFound(_)));
}

#[test]
fn test_delete_project_removes_api_keys() {
    let mut storage = test_storage();
    create_project(&mut storage, "my-app", None).unwrap();

    storage.state_mut().api_keys.push(ApiKey {
        key: "key-1".to_string(),
        project: "my-app".to_string(),
    });
    storage.state_mut().api_keys.push(ApiKey {
        key: "key-2".to_string(),
        project: "other".to_string(),
    });
    storage.save().unwrap();

    delete_project(&mut storage, "my-app").unwrap();

    assert!(list_projects(&storage).is_empty());
    assert_eq!(storage.state().api_keys.len(), 1);
    assert_eq!(storage.state().api_keys[0].project, "other");
}

#[test]
fn test_create_project_default_env() {
    let mut storage = test_storage();
    let project = create_project(&mut storage, "test", None).unwrap();

    assert_eq!(project.environments.len(), 1);
    assert_eq!(project.environments[0].name, "default");
    assert!(project.environments[0].config_items.is_empty());
}

#[test]
fn create_project_keeps_order_and_description() {
    let mut storage = test_storage();
    create_project(&mut storage, "a", Some("first")).unwrap();
    create_project(&mut storage, "b", None).unwrap();
    let state = storage.state();
    assert_eq!(state.projects[0].description, Some("first".to_string()));
    assert_eq!(state.projects[1].description, None);
    assert_eq!(state.projects[1].environments[0].name, "default");
}

#[test]
fn duplicate_project_changes_nothing() {
    let mut storage = test_storage();
    create_project(&mut storage, "a", Some("first")).unwrap();
    let before = storage.state().clone();
    let err = create_project(&mut storage, "a", Some("second")).unwrap_err();
    assert_eq!(err.message(), "project already exists: a");
    assert_eq!(*storage.state(), before);
}

#[test]
fn delete_project_leaves_other_projects_alone() {
    let mut storage = test_storage();
    create_project(&mut storage, "a", None).unwrap();
    create_project(&mut storage, "b", Some("keep")).unwrap();
    create_project(&mut storage, "c", None).unwrap();
    for (key, project) in [("k1", "b"), ("k2", "a"), ("k3", "b"), ("k4", "c"), ("k5", "b")] {
        storage.state_mut().api_keys.push(ApiKey {
            key: key.to_string(),
            project: project.to_string(),
        });
    }
    delete_project(&mut storage, "b").unwrap();
    let names: Vec<&str> = storage.state().projects.iter().map(|p| p.name.as_str()).collect();
    assert_eq!(names, vec!["a", "c"]);
    let keys: Vec<&str> = storage.state().api_keys.iter().map(|k| k.key.as_str()).collect();
    assert_eq!(keys, vec!["k2", "k4"]);
}

#[test]
fn rollback_restores_deleted_project_and_keys_in_place() {
    let mut storage = test_storage();
    create_project(&mut storage, "a", None).unwrap();
    create_project(&mut storage, "b", Some("keep")).unwrap();
    create_project(&mut storage, "c", None).unwrap();
    for (key, project) in [("k1", "b"), ("k2", "a"), ("k3", "b"), ("k4", "c"), ("k5", "b")] {
        storage.state_mut().api_keys.push(ApiKey {
            key: key.to_string(),
            project: project.to_string(),
        });
    }
    let before = storage.state().clone();
    let exported = storage.save().unwrap();
    delete_project(&mut storage, "b").unwrap();
    assert_ne!(*storage.state(), before);
    assert!(storage.rollback());
    assert_eq!(*storage.state(), before);
    assert_eq!(storage.save().unwrap(), exported);
    assert!(!storage.rollback());
}

#[test]
fn rollback_takes_created_project_back() {
    let mut storage = test_storage();
    create_project(&mut storage, "a", None).unwrap();
    storage.commit();
    let before = storage.state().clone();
    create_project(&mut storage, "b", None).unwrap();
    assert!(storage.has_pending());
    assert!(storage.rollback());
    assert_eq!(*storage.state(), before);
}
