use config_center::api_key::generate_api_key;
use config_center::config::create_config_item;
use config_center::env::create_environment;
use config_center::panel::{Focus, InputMode, MenuPanel};
use config_center::project::create_project;
use config_center::shared::create_shared_item;
use config_center::storage::Storage;
use config_center::tui::{App, Key};
use config_center::value::ConfigValue;

fn test_app() -> App {
    App::new(Some("")).unwrap()
}

fn text(s: &str) -> ConfigValue {
    ConfigValue::String(s.to_string())
}

fn type_text(app: &mut App, s: &str) {
    for c in s.chars() {
        app.handle_key(Key::Char(c));
    }
}

#[test]
fn test_initial_state() {
    let app = test_app();
    assert_eq!(app.selected_panel(), MenuPanel::Projects);
    assert_eq!(app.focus(), Focus::Menu);
    assert_eq!(app.status_message(), "Ready");
    assert!(app.is_running());
    assert_eq!(app.input_mode(), InputMode::Normal);
    assert!(app.content_items().is_empty());
}

#[test]
fn test_menu_navigation() {
    let mut app = test_app();
    app.handle_key(Key::Down);
    assert_eq!(app.selected_panel(), MenuPanel::Environments);
    app.handle_key(Key::Down);
    assert_eq!(app.selected_panel(), MenuPanel::ConfigItems);
    app.handle_key(Key::Up);
    assert_eq!(app.selected_panel(), MenuPanel::Environments);
    app.handle_key(Key::Up);
    app.handle_key(Key::Up);
    assert_eq!(app.selected_panel(), MenuPanel::Projects);
}

#[test]
fn test_menu_navigation_lower_bound() {
    let mut app = test_app();
    for _ in 0..10 {
        app.handle_key(Key::Down);
    }
    assert_eq!(app.selected_panel(), MenuPanel::Server);
}

#[test]
fn test_tab_switches_focus() {
    let mut app = test_app();
    assert_eq!(app.focus(), Focus::Menu);
    app.handle_key(Key::Tab);
    assert_eq!(app.focus(), Focus::Content);
    app.handle_key(Key::Tab);
    assert_eq!(app.focus(), Focus::Menu);
}

#[test]
fn test_content_focus_ignores_menu_nav() {
    let mut app = test_app();
    app.handle_key(Key::Tab);
    assert_eq!(app.focus(), Focus::Content);
    app.handle_key(Key::Down);
    assert_eq!(app.selected_panel(), MenuPanel::Projects);
}

#[test]
fn test_enter_updates_status() {
    let mut app = test_app();
    app.handle_key(Key::Down);
    app.handle_key(Key::Enter);
    assert_eq!(app.status_message(), "Selected: Environments");
}

#[test]
fn test_quit() {
    let mut app = test_app();
    assert!(app.is_running());
    app.handle_key(Key::Char('q'));
    assert!(!app.is_running());
}

#[test]
fn test_with_center() {
    let center = Storage::load(Some("")).unwrap();
    let app = App::with_center(center);
    assert_eq!(app.selected_panel(), MenuPanel::Projects);
}

#[test]
fn test_all_panels_accessible() {
    let mut app = test_app();
    let expected = [
        MenuPanel::Projects,
        MenuPanel::Environments,
        MenuPanel::ConfigItems,
        MenuPanel::SharedGroup,
        MenuPanel::ApiKeys,
        MenuPanel::Server,
    ];
    for (i, panel) in expected.iter().enumerate() {
        assert_eq!(app.selected_panel(), *panel, "panel at index {}", i);
        if i < expected.len() - 1 {
            app.handle_key(Key::Down);
        }
    }
}

#[test]
fn test_create_project_via_tui() {
    let mut app = test_app();
    app.handle_key(Key::Tab);
    app.handle_key(Key::Char('n'));
    assert_eq!(app.input_mode(), InputMode::Creating);
    assert_eq!(app.input_fields().len(), 2);

    type_text(&mut app, "my-app");
    app.handle_key(Key::Tab);
    type_text(&mut app, "test desc");
    app.handle_key(Key::Enter);

    assert_eq!(app.input_mode(), InputMode::Normal);
    assert_eq!(app.content_items().len(), 1);
    assert_eq!(app.content_items()[0], "my-app (test desc)");
    assert!(app.status_message().contains("created"));
}

#[test]
fn test_create_project_empty_name() {
    let mut app = test_app();
    app.handle_key(Key::Tab);
    app.handle_key(Key::Char('n'));
    app.handle_key(Key::Enter);
    assert_eq!(app.input_mode(), InputMode::Creating);
    assert!(app.status_message().contains("empty"));
}

#[test]
fn app_test_create_project_duplicate() {
    let mut app = test_app();
    create_project(app.center_mut(), "dup", None).unwrap();
    app.refresh_content();

    app.handle_key(Key::Tab);
    app.handle_key(Key::Char('n'));
    type_text(&mut app, "dup");
    app.handle_key(Key::Enter);

    assert_eq!(app.input_mode(), InputMode::Normal);
    assert!(app.status_message().contains("Error"));
}

#[test]
fn test_create_project_cancel() {
    let mut app = test_app();
    app.handle_key(Key::Tab);
    app.handle_key(Key::Char('n'));
    assert_eq!(app.input_mode(), InputMode::Creating);
    app.handle_key(Key::Esc);
    assert_eq!(app.input_mode(), InputMode::Normal);
    assert!(app.content_items().is_empty());
}

#[test]
fn test_delete_project_via_tui() {
    let mut app = test_app();
    create_project(app.center_mut(), "to-delete", None).unwrap();
    app.refresh_content();
    assert_eq!(app.content_items().len(), 1);

    app.handle_key(Key::Tab);
    app.handle_key(Key::Char('d'));
    assert_eq!(app.input_mode(), InputMode::Deleting);
    app.handle_key(Key::Char('y'));
    assert_eq!(app.input_mode(), InputMode::Normal);
    assert!(app.content_items().is_empty());
    assert!(app.status_message().contains("deleted"));
}

#[test]
fn test_delete_project_cancel() {
    let mut app = test_app();
    create_project(app.center_mut(), "keep", None).unwrap();
    app.refresh_content();

    app.handle_key(Key::Tab);
    app.handle_key(Key::Char('d'));
    assert_eq!(app.input_mode(), InputMode::Deleting);
    app.handle_key(Key::Char('n'));
    assert_eq!(app.input_mode(), InputMode::Normal);
    assert_eq!(app.content_items().len(), 1);
}

#[test]
fn test_delete_on_empty_list() {
    let mut app = test_app();
    app.handle_key(Key::Tab);
    app.handle_key(Key::Char('d'));
    assert_eq!(app.input_mode(), InputMode::Normal);
}

#[test]
fn test_content_list_navigation() {
    let mut app = test_app();
    create_project(app.center_mut(), "aaa", None).unwrap();
    create_project(app.center_mut(), "bbb", None).unwrap();
    create_project(app.center_mut(), "ccc", None).unwrap();
    app.refresh_content();

    app.handle_key(Key::Tab);
    assert_eq!(app.content_selected(), 0);
    app.handle_key(Key::Down);
    assert_eq!(app.content_selected(), 1);
    app.handle_key(Key::Down);
    assert_eq!(app.content_selected(), 2);
    app.handle_key(Key::Down);
    assert_eq!(app.content_selected(), 2);
    app.handle_key(Key::Up);
    assert_eq!(app.content_selected(), 1);
    app.handle_key(Key::Up);
    app.handle_key(Key::Up);
    assert_eq!(app.content_selected(), 0);
}

#[test]
fn test_menu_switch_refreshes_content() {
    let mut app = test_app();
    create_project(app.center_mut(), "proj", None).unwrap();
    app.refresh_content();
    assert_eq!(app.content_items().len(), 1);

    app.handle_key(Key::Down);
    assert!(!app.content_items().is_empty());

    app.handle_key(Key::Up);
    assert_eq!(app.content_items().len(), 1);
}

#[test]
fn test_backspace_in_create_mode() {
    let mut app = test_app();
    app.handle_key(Key::Tab);
    app.handle_key(Key::Char('n'));
    type_text(&mut app, "abc");
    app.handle_key(Key::Backspace);
    assert_eq!(app.input_fields()[0].1, "ab");
}

#[test]
fn test_create_project_no_description() {
    let mut app = test_app();
    app.handle_key(Key::Tab);
    app.handle_key(Key::Char('n'));
    type_text(&mut app, "simple");
    app.handle_key(Key::Enter);
    assert_eq!(app.content_items().len(), 1);
    assert_eq!(app.content_items()[0], "simple");
}

#[test]
fn test_q_does_not_quit_in_create_mode() {
    let mut app = test_app();
    app.handle_key(Key::Tab);
    app.handle_key(Key::Char('n'));
    app.handle_key(Key::Char('q'));
    assert!(app.is_running());
    assert_eq!(app.input_fields()[0].1, "q");
}

#[test]
fn test_environment_panel_shows_envs() {
    let mut app = test_app();
    create_project(app.center_mut(), "proj", None).unwrap();
    app.handle_key(Key::Down);
    assert_eq!(app.current_project(), Some("proj"));
    assert_eq!(app.content_items().len(), 1);
    assert_eq!(app.content_items()[0], "default");
}

#[test]
fn test_create_environment_via_tui() {
    let mut app = test_app();
    create_project(app.center_mut(), "proj", None).unwrap();
    app.handle_key(Key::Down);
    app.handle_key(Key::Tab);
    app.handle_key(Key::Char('n'));
    assert_eq!(app.input_mode(), InputMode::Creating);

    type_text(&mut app, "staging");
    app.handle_key(Key::Enter);

    assert_eq!(app.input_mode(), InputMode::Normal);
    assert!(app.status_message().contains("created"));
    assert_eq!(app.content_items().len(), 2);
}

#[test]
fn test_delete_environment_via_tui() {
    let mut app = test_app();
    create_project(app.center_mut(), "proj", None).unwrap();
    create_environment(app.center_mut(), "proj", "staging").unwrap();
    app.handle_key(Key::Down);
    app.handle_key(Key::Tab);
    app.handle_key(Key::Down);
    app.handle_key(Key::Char('d'));
    assert_eq!(app.input_mode(), InputMode::Deleting);
    app.handle_key(Key::Char('y'));
    assert!(app.status_message().contains("deleted"));
    assert_eq!(app.content_items().len(), 1);
}

#[test]
fn test_environment_no_project() {
    let mut app = test_app();
    app.handle_key(Key::Down);
    app.handle_key(Key::Tab);
    app.handle_key(Key::Char('n'));
    assert!(app.status_message().contains("no project"));
}

#[test]
fn test_config_items_panel() {
    let mut app = test_app();
    create_project(app.center_mut(), "proj", None).unwrap();
    create_config_item(app.center_mut(), "proj", "default", "db_host", text("localhost")).unwrap();
    app.handle_key(Key::Down);
    app.handle_key(Key::Down);
    assert_eq!(app.selected_panel(), MenuPanel::ConfigItems);
    assert_eq!(app.content_items().len(), 1);
    assert!(app.content_items()[0].contains("db_host"));
}

#[test]
fn test_create_config_item_via_tui() {
    let mut app = test_app();
    create_project(app.center_mut(), "proj", None).unwrap();
    app.handle_key(Key::Down);
    app.handle_key(Key::Down);
    app.handle_key(Key::Tab);
    app.handle_key(Key::Char('n'));
    assert_eq!(app.input_mode(), InputMode::Creating);

    type_text(&mut app, "port");
    app.handle_key(Key::Tab);
    type_text(&mut app, "8080");
    app.handle_key(Key::Enter);

    assert_eq!(app.input_mode(), InputMode::Normal);
    assert!(app.status_message().contains("created"));
    assert_eq!(app.content_items().len(), 1);
}

#[test]
fn test_delete_config_item_via_tui() {
    let mut app = test_app();
    create_project(app.center_mut(), "proj", None).unwrap();
    create_config_item(app.center_mut(), "proj", "default", "key1", text("val")).unwrap();
    app.handle_key(Key::Down);
    app.handle_key(Key::Down);
    app.handle_key(Key::Tab);
    app.handle_key(Key::Char('d'));
    app.handle_key(Key::Char('y'));
    assert!(app.status_message().contains("deleted"));
    assert!(app.content_items().is_empty());
}

#[test]
fn test_edit_config_item_via_tui() {
    let mut app = test_app();
    create_project(app.center_mut(), "proj", None).unwrap();
    create_config_item(app.center_mut(), "proj", "default", "host", text("old")).unwrap();
    app.handle_key(Key::Down);
    app.handle_key(Key::Down);
    app.handle_key(Key::Tab);
    app.handle_key(Key::Char('e'));
    assert_eq!(app.input_mode(), InputMode::Creating);
    assert_eq!(app.input_fields()[0].1, "host");
    assert_eq!(app.input_field(), 1);
}

#[test]
fn test_cycle_project() {
    let mut app = test_app();
    create_project(app.center_mut(), "aaa", None).unwrap();
    create_project(app.center_mut(), "bbb", None).unwrap();
    app.handle_key(Key::Down);
    app.handle_key(Key::Down);
    app.handle_key(Key::Tab);
    assert_eq!(app.current_project(), Some("aaa"));
    app.handle_key(Key::Char('p'));
    assert_eq!(app.current_project(), Some("bbb"));
    app.handle_key(Key::Char('p'));
    assert_eq!(app.current_project(), Some("aaa"));
}

#[test]
fn test_cycle_env() {
    let mut app = test_app();
    create_project(app.center_mut(), "proj", None).unwrap();
    create_environment(app.center_mut(), "proj", "staging").unwrap();
    app.handle_key(Key::Down);
    app.handle_key(Key::Down);
    app.handle_key(Key::Tab);
    assert_eq!(app.current_env(), Some("default"));
    app.handle_key(Key::Char('v'));
    assert_eq!(app.current_env(), Some("staging"));
    app.handle_key(Key::Char('v'));
    assert_eq!(app.current_env(), Some("default"));
}

#[test]
fn test_shared_group_panel() {
    let mut app = test_app();
    for _ in 0..3 {
        app.handle_key(Key::Down);
    }
    assert_eq!(app.selected_panel(), MenuPanel::SharedGroup);
    assert!(app.content_items().is_empty());
}

#[test]
fn test_create_shared_item_via_tui() {
    let mut app = test_app();
    for _ in 0..3 {
        app.handle_key(Key::Down);
    }
    app.handle_key(Key::Tab);
    app.handle_key(Key::Char('n'));
    assert_eq!(app.input_mode(), InputMode::Creating);

    type_text(&mut app, "log_level");
    app.handle_key(Key::Tab);
    type_text(&mut app, "info");
    app.handle_key(Key::Enter);

    assert!(app.status_message().contains("created"));
    assert_eq!(app.content_items().len(), 1);
    assert!(app.content_items()[0].contains("log_level"));
}

#[test]
fn test_delete_shared_item_via_tui() {
    let mut app = test_app();
    app.ensure_shared_env("default");
    create_shared_item(app.center_mut(), "default", "key1", text("val")).unwrap();
    for _ in 0..3 {
        app.handle_key(Key::Down);
    }
    app.handle_key(Key::Tab);
    app.handle_key(Key::Char('d'));
    app.handle_key(Key::Char('y'));
    assert!(app.status_message().contains("deleted"));
    assert!(app.content_items().is_empty());
}

#[test]
fn test_api_keys_panel() {
    let mut app = test_app();
    create_project(app.center_mut(), "proj", None).unwrap();
    for _ in 0..4 {
        app.handle_key(Key::Down);
    }
    assert_eq!(app.selected_panel(), MenuPanel::ApiKeys);
    assert!(app.content_items().is_empty());
}

#[test]
fn test_generate_api_key_via_tui() {
    let mut app = test_app();
    create_project(app.center_mut(), "proj", None).unwrap();
    for _ in 0..4 {
        app.handle_key(Key::Down);
    }
    app.handle_key(Key::Tab);
    app.handle_key(Key::Char('n'));
    assert_eq!(app.input_mode(), InputMode::Normal);
    assert!(app.status_message().contains("generated"));
    assert_eq!(app.content_items().len(), 1);
}

#[test]
fn test_revoke_api_key_via_tui() {
    let mut app = test_app();
    create_project(app.center_mut(), "proj", None).unwrap();
    generate_api_key(app.center_mut(), "proj").unwrap();
    for _ in 0..4 {
        app.handle_key(Key::Down);
    }
    assert_eq!(app.content_items().len(), 1);
    app.handle_key(Key::Tab);
    app.handle_key(Key::Char('d'));
    app.handle_key(Key::Char('y'));
    assert!(app.status_message().contains("revoked"));
    assert!(app.content_items().is_empty());
}

#[test]
fn test_server_panel() {
    let mut app = test_app();
    for _ in 0..5 {
        app.handle_key(Key::Down);
    }
    assert_eq!(app.selected_panel(), MenuPanel::Server);
    assert_eq!(app.content_items().len(), 1);
    assert!(app.content_items()[0].contains("Stopped"));
}

#[test]
fn test_server_toggle() {
    let mut app = test_app();
    for _ in 0..5 {
        app.handle_key(Key::Down);
    }
    app.handle_key(Key::Tab);
    assert!(!app.server_running());

    app.handle_key(Key::Char('s'));
    assert!(app.server_running());
    assert!(app.content_items()[0].contains("Running"));
    assert!(app.status_message().contains("started"));

    app.handle_key(Key::Char('s'));
    assert!(!app.server_running());
    assert!(app.content_items()[0].contains("Stopped"));
    assert!(app.status_message().contains("stopped"));
}

#[test]
fn test_success_message_on_create() {
    let mut app = test_app();
    app.handle_key(Key::Tab);
    app.handle_key(Key::Char('n'));
    type_text(&mut app, "test");
    app.handle_key(Key::Enter);
    assert!(app.status_message().contains("created"));
}

#[test]
fn test_error_message_on_duplicate() {
    let mut app = test_app();
    create_project(app.center_mut(), "dup", None).unwrap();
    app.refresh_content();
    app.handle_key(Key::Tab);
    app.handle_key(Key::Char('n'));
    type_text(&mut app, "dup");
    app.handle_key(Key::Enter);
    assert!(app.status_message().contains("Error"));
}

#[test]
fn test_cancel_message() {
    let mut app = test_app();
    app.handle_key(Key::Tab);
    app.handle_key(Key::Char('n'));
    app.handle_key(Key::Esc);
    assert_eq!(app.status_message(), "Cancelled");
}

#[test]
fn typed_values_are_read_as_json_where_they_are_json() {
    let mut app = test_app();
    create_project(app.center_mut(), "proj", None).unwrap();
    app.handle_key(Key::Down);
    app.handle_key(Key::Down);
    app.handle_key(Key::Tab);
    app.handle_key(Key::Char('n'));
    type_text(&mut app, " port ");
    app.handle_key(Key::Tab);
    type_text(&mut app, " [1, true] ");
    app.handle_key(Key::Enter);
    assert_eq!(app.status_message(), "Config 'port' created");
    assert_eq!(app.content_items()[0], "port = [1,true]");

    app.handle_key(Key::Char('e'));
    assert_eq!(app.input_fields()[0], ("Key".to_string(), "port".to_string()));
    assert_eq!(app.input_fields()[1], ("Value".to_string(), "[1,true]".to_string()));
    app.handle_key(Key::Backspace);
    app.handle_key(Key::Backspace);
    app.handle_key(Key::Enter);
    assert_eq!(app.status_message(), "Config 'port' updated");
    assert_eq!(app.content_items()[0], "port = \"[1,tru\"");
    assert!(app.needs_persist());
}

#[test]
fn a_failed_write_takes_the_last_change_back() {
    let mut app = test_app();
    create_project(app.center_mut(), "keep", None).unwrap();
    app.persisted();
    app.refresh_content();
    assert!(!app.needs_persist());
    let before = app.center().state().clone();

    app.handle_key(Key::Tab);
    app.handle_key(Key::Char('n'));
    type_text(&mut app, "gone");
    app.handle_key(Key::Enter);
    assert_eq!(app.content_items().len(), 2);
    assert!(app.needs_persist());

    app.persist_failed("disk full");
    assert_eq!(app.status_message(), "Error: io error: disk full");
    assert_eq!(*app.center().state(), before);
    assert_eq!(app.content_items().len(), 1);
    assert!(!app.needs_persist());
}

#[test]
fn form_fields_cycle_with_the_tabulator() {
    let mut app = test_app();
    app.handle_key(Key::Tab);
    app.handle_key(Key::Char('n'));
    assert_eq!(app.input_field(), 0);
    app.handle_key(Key::BackTab);
    assert_eq!(app.input_field(), 0);
    app.handle_key(Key::Tab);
    assert_eq!(app.input_field(), 1);
    app.handle_key(Key::Tab);
    assert_eq!(app.input_field(), 0);
    app.handle_key(Key::Tab);
    app.handle_key(Key::BackTab);
    assert_eq!(app.input_field(), 0);
    app.handle_key(Key::Other);
    assert_eq!(app.input_mode(), InputMode::Creating);
}

#[test]
fn content_titles_name_the_project_and_environment() {
    let mut app = test_app();
    assert_eq!(app.content_title(MenuPanel::Projects), " Projects ");
    assert_eq!(app.content_title(MenuPanel::Environments), " Environments [project: none] ");
    create_project(app.center_mut(), "proj", None).unwrap();
    app.handle_key(Key::Down);
    app.handle_key(Key::Down);
    assert_eq!(
        app.content_title(MenuPanel::ConfigItems),
        " Config Items [proj:default] (p=project, v=env) "
    );
    assert_eq!(app.content_title(MenuPanel::SharedGroup), " Shared Group [env: default] (v=env) ");
    assert_eq!(app.content_title(MenuPanel::ApiKeys), " API Keys [project: proj] (p=project) ");
    assert_eq!(app.content_title(MenuPanel::Server), " Server ");
}

fn go_to(app: &mut App, panel: usize) {
    for _ in 0..panel {
        app.handle_key(Key::Down);
    }
    app.handle_key(Key::Tab);
}

#[test]
fn cycling_projects_names_the_project_and_resets_the_environment() {
    let mut app = test_app();
    create_project(app.center_mut(), "aaa", None).unwrap();
    create_project(app.center_mut(), "bbb", None).unwrap();
    create_environment(app.center_mut(), "bbb", "prod").unwrap();
    create_config_item(app.center_mut(), "bbb", "default", "k", text("v")).unwrap();
    app.persisted();
    go_to(&mut app, 2);
    app.handle_key(Key::Char('v'));
    assert_eq!(app.current_env(), Some("default"));
    assert_eq!(app.status_message(), "Switched to env: default");
    app.handle_key(Key::Char('p'));
    assert_eq!(app.status_message(), "Switched to project: bbb");
    assert_eq!(app.current_project(), Some("bbb"));
    assert_eq!(app.current_env(), Some("default"));
    assert_eq!(app.content_items(), &vec!["k = \"v\"".to_string()]);
    app.handle_key(Key::Char('v'));
    assert_eq!(app.status_message(), "Switched to env: prod");
    assert!(app.content_items().is_empty());
    assert!(!app.needs_persist());
}

#[test]
fn cycling_without_projects_changes_nothing() {
    let mut app = test_app();
    go_to(&mut app, 2);
    app.handle_key(Key::Char('p'));
    app.handle_key(Key::Char('v'));
    assert_eq!(app.status_message(), "Ready");
    assert_eq!(app.current_project(), None);
    assert_eq!(app.current_env(), Some("default"));
}

#[test]
fn cycling_environments_in_the_shared_panel_takes_the_shared_ones() {
    let mut app = test_app();
    create_project(app.center_mut(), "proj", None).unwrap();
    app.ensure_shared_env("default");
    app.ensure_shared_env("staging");
    go_to(&mut app, 3);
    app.handle_key(Key::Char('v'));
    assert_eq!(app.current_env(), Some("staging"));
    app.handle_key(Key::Char('v'));
    assert_eq!(app.current_env(), Some("default"));

    let mut app = test_app();
    app.ensure_shared_env("default");
    go_to(&mut app, 3);
    app.handle_key(Key::Char('v'));
    assert_eq!(app.status_message(), "Ready");
}

#[test]
fn new_entries_need_a_project_where_the_panel_shows_one() {
    let mut app = test_app();
    go_to(&mut app, 1);
    app.handle_key(Key::Char('n'));
    assert_eq!(app.status_message(), "Error: no project selected, create a project first");
    assert_eq!(app.input_mode(), InputMode::Normal);

    for panel in [2, 4] {
        let mut app = test_app();
        go_to(&mut app, panel);
        app.handle_key(Key::Char('n'));
        assert_eq!(app.status_message(), "Error: no project selected");
        assert_eq!(app.input_mode(), InputMode::Normal);
    }

    let mut app = test_app();
    go_to(&mut app, 5);
    app.handle_key(Key::Char('n'));
    assert_eq!(app.status_message(), "Use 's' to toggle server");

    let mut app = test_app();
    go_to(&mut app, 3);
    app.handle_key(Key::Char('n'));
    assert_eq!(app.input_mode(), InputMode::Creating);
    assert_eq!(app.status_message(), "Creating... Tab=next field, Enter=confirm, Esc=cancel");
    assert_eq!(
        app.input_fields(),
        &vec![("Key".to_string(), String::new()), ("Value".to_string(), String::new())]
    );
    assert_eq!(app.input_field(), 0);
}

#[test]
fn a_generated_key_is_shown_and_named_in_the_status() {
    let mut app = test_app();
    create_project(app.center_mut(), "proj", None).unwrap();
    go_to(&mut app, 4);
    app.handle_key(Key::Char('n'));
    let token = app.center().state().api_keys[0].key.clone();
    assert_eq!(token.chars().count(), 36);
    assert_eq!(app.status_message(), format!("API Key generated: {}", token));
    assert_eq!(app.content_items(), &vec![format!("{} (proj)", token)]);
    assert!(app.needs_persist());

    app.handle_key(Key::Char('d'));
    assert_eq!(app.status_message(), "Delete? y=confirm, n/Esc=cancel");
    app.handle_key(Key::Char('x'));
    assert_eq!(app.input_mode(), InputMode::Deleting);
    app.handle_key(Key::Char('y'));
    assert_eq!(app.status_message(), format!("API Key revoked: {}", token));
    assert!(app.center().state().api_keys.is_empty());
}

#[test]
fn editing_opens_only_on_items() {
    let mut app = test_app();
    create_project(app.center_mut(), "proj", Some("a = b")).unwrap();
    app.refresh_content();
    app.handle_key(Key::Tab);
    app.handle_key(Key::Char('e'));
    assert_eq!(app.input_mode(), InputMode::Normal);
    assert_eq!(app.status_message(), "Ready");

    let mut app = test_app();
    app.ensure_shared_env("default");
    create_shared_item(app.center_mut(), "default", "k", text("a = b")).unwrap();
    go_to(&mut app, 3);
    app.handle_key(Key::Char('e'));
    assert_eq!(app.status_message(), "Editing... Tab=next field, Enter=confirm, Esc=cancel");
    assert_eq!(
        app.input_fields(),
        &vec![("Key".to_string(), "k".to_string()), ("Value".to_string(), "\"a = b\"".to_string())]
    );
    app.handle_key(Key::Enter);
    assert_eq!(app.status_message(), "Shared config 'k' updated");
    assert_eq!(app.content_items(), &vec!["k = \"a = b\"".to_string()]);
}

#[test]
fn confirming_a_form_reports_what_was_done() {
    let mut app = test_app();
    create_project(app.center_mut(), "proj", None).unwrap();
    go_to(&mut app, 1);
    app.handle_key(Key::Char('n'));
    app.handle_key(Key::Backspace);
    app.handle_key(Key::Enter);
    assert_eq!(app.status_message(), "Error: name cannot be empty");
    assert_eq!(app.input_mode(), InputMode::Creating);
    type_text(&mut app, "default");
    app.handle_key(Key::Enter);
    assert_eq!(app.status_message(), "Error: environment already exists: default");
    assert_eq!(app.input_mode(), InputMode::Normal);
    assert!(app.input_fields().is_empty());
    app.handle_key(Key::Char('n'));
    type_text(&mut app, "prod");
    app.handle_key(Key::Enter);
    assert_eq!(app.status_message(), "Environment 'prod' created");
    assert_eq!(app.content_items(), &vec!["default".to_string(), "prod".to_string()]);

    let mut app = test_app();
    go_to(&mut app, 3);
    app.handle_key(Key::Char('n'));
    app.handle_key(Key::Tab);
    type_text(&mut app, "1");
    app.handle_key(Key::Enter);
    assert_eq!(app.status_message(), "Error: key cannot be empty");
    app.handle_key(Key::Tab);
    type_text(&mut app, "level");
    app.handle_key(Key::Enter);
    assert_eq!(app.status_message(), "Shared config 'level' created");
    assert_eq!(app.center().state().shared_group.environments[0].name, "default");
    assert_eq!(app.content_items(), &vec!["level = 1".to_string()]);
}

#[test]
fn deleting_reports_what_was_done() {
    let mut app = test_app();
    create_project(app.center_mut(), "proj", Some("d")).unwrap();
    create_environment(app.center_mut(), "proj", "prod").unwrap();
    create_config_item(app.center_mut(), "proj", "default", "k", text("v")).unwrap();
    go_to(&mut app, 2);
    app.handle_key(Key::Char('d'));
    app.handle_key(Key::Esc);
    assert_eq!(app.status_message(), "Cancelled");
    assert_eq!(app.content_items().len(), 1);
    app.handle_key(Key::Char('d'));
    app.handle_key(Key::Char('y'));
    assert_eq!(app.status_message(), "Config 'k' deleted");
    assert!(app.needs_persist());
    app.persisted();

    app.handle_key(Key::Tab);
    app.handle_key(Key::Up);
    app.handle_key(Key::Tab);
    app.handle_key(Key::Down);
    app.handle_key(Key::Char('d'));
    app.handle_key(Key::Char('y'));
    assert_eq!(app.status_message(), "Environment 'prod' deleted");
    assert_eq!(app.content_items(), &vec!["default".to_string()]);
    assert_eq!(app.content_selected(), 0);

    app.handle_key(Key::Tab);
    app.handle_key(Key::Up);
    app.handle_key(Key::Tab);
    assert_eq!(app.content_items(), &vec!["proj (d)".to_string()]);
    app.handle_key(Key::Char('d'));
    app.handle_key(Key::Char('y'));
    assert_eq!(app.status_message(), "Project 'proj' deleted");
    assert!(app.center().state().projects.is_empty());
}

#[test]
fn a_name_of_white_space_is_refused_and_the_form_stays_open() {
    let mut app = test_app();
    app.handle_key(Key::Tab);
    app.handle_key(Key::Char('n'));
    type_text(&mut app, " \t\u{a0} ");
    app.handle_key(Key::Enter);
    assert_eq!(app.status_message(), "Error: name cannot be empty");
    assert_eq!(app.input_mode(), InputMode::Creating);
    assert_eq!(app.input_fields()[0].1, " \t\u{a0} ");
    assert!(app.center().state().projects.is_empty());
    assert!(!app.needs_persist());

    type_text(&mut app, "a b\n");
    app.handle_key(Key::Enter);
    assert_eq!(app.status_message(), "Project 'a b' created");
    assert_eq!(app.center().state().projects[0].name, "a b");
}

#[test]
fn menu_keys_move_the_selection_and_refill_the_content() {
    let mut app = test_app();
    create_project(app.center_mut(), "proj", None).unwrap();
    app.persisted();
    app.handle_key(Key::Up);
    assert_eq!(app.selected_panel(), MenuPanel::Projects);
    assert!(app.content_items().is_empty());
    app.handle_key(Key::Down);
    assert_eq!(app.selected_panel(), MenuPanel::Environments);
    assert_eq!(app.content_items(), &vec!["default".to_string()]);
    assert_eq!(app.current_project(), Some("proj"));
    app.handle_key(Key::Enter);
    assert_eq!(app.status_message(), "Selected: Environments");
    assert_eq!(app.selected_panel(), MenuPanel::Environments);
    for _ in 0..9 {
        app.handle_key(Key::Down);
    }
    assert_eq!(app.selected_panel(), MenuPanel::Server);
    app.handle_key(Key::Enter);
    assert_eq!(app.status_message(), "Selected: Server");
    app.handle_key(Key::Char('x'));
    assert_eq!(app.selected_panel(), MenuPanel::Server);
    assert_eq!(app.status_message(), "Selected: Server");
}
