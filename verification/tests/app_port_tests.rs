use sshm::app::{App, AppAction, AppMode, SaveKind};
use sshm::config::{Config, Connection};
use sshm::connections::ConnectionDraft;
use sshm::keys::{KeyCode, KeyEvent};

fn create_test_app() -> App {
    let mut config = Config::new();
    config.add_connection(Connection {
        id: "1".to_string(),
        alias: "prod-server".to_string(),
        host: "192.168.1.10".to_string(),
        user: "admin".to_string(),
        port: 22,
        key_path: None,
        folder: Some("production".to_string()),
    });
    config.add_connection(Connection {
        id: "2".to_string(),
        alias: "dev-server".to_string(),
        host: "192.168.1.20".to_string(),
        user: "developer".to_string(),
        port: 2222,
        key_path: None,
        folder: Some("development".to_string()),
    });
    config.add_connection(Connection {
        id: "3".to_string(),
        alias: "web-server".to_string(),
        host: "example.com".to_string(),
        user: "www".to_string(),
        port: 22,
        key_path: None,
        folder: None,
    });
    App::new(config)
}

fn key(code: KeyCode) -> KeyEvent {
    KeyEvent::plain(code)
}

/// Type `c` into the form field the cursor is on.
fn append_input_char(app: &mut App, c: char) {
    let mode = app.mode;
    app.mode = AppMode::Add;
    app.input_key(key(KeyCode::Char(c)));
    app.mode = mode;
}

/// Move the form cursor one field on.
fn advance_input_field(app: &mut App) {
    let mode = app.mode;
    app.mode = AppMode::Add;
    app.input_key(key(KeyCode::Tab));
    app.mode = mode;
}

/// Drop the last character of the field the cursor is on.
fn delete_input_char(app: &mut App) {
    let mode = app.mode;
    app.mode = AppMode::Add;
    app.input_key(key(KeyCode::Backspace));
    app.mode = mode;
}

/// Submit the form, as Enter does, and report the write as done.
fn save_connection(app: &mut App) {
    if let AppAction::Save(kind) = app.input_key(key(KeyCode::Enter)) {
        app.saved(kind, Ok(()));
    }
}

/// Delete the selected Connection, as `D` does, and report the write as done.
fn delete_connection(app: &mut App) {
    if let AppAction::Save(kind) = app.normal_key(key(KeyCode::Char('D'))) {
        app.saved(kind, Ok(()));
    }
}

fn draft(alias: &str, host: &str, user: &str, port: &str, key_path: &str, folder: &str) -> ConnectionDraft {
    ConnectionDraft {
        alias: alias.to_string(),
        host: host.to_string(),
        user: user.to_string(),
        port: port.to_string(),
        key_path: key_path.to_string(),
        folder: folder.to_string(),
    }
}

#[test]
fn test_app_new() {
    let app = create_test_app();
    assert_eq!(app.config.connections.len(), 3);
    assert_eq!(app.selected_index, 0);
    assert_eq!(app.mode, AppMode::Normal);
    assert_eq!(app.filtered_indices, vec![0, 1, 2]);
}

#[test]
fn test_append_input_char() {
    let mut app = create_test_app();
    app.input_field = 0;
    append_input_char(&mut app, 'a');
    assert_eq!(app.input_buffer.alias, "a");
    append_input_char(&mut app, 'b');
    assert_eq!(app.input_buffer.alias, "ab");
    app.input_field = 1;
    append_input_char(&mut app, '1');
    assert_eq!(app.input_buffer.host, "1");
    app.input_field = 1;
    append_input_char(&mut app, '9');
    assert_eq!(app.input_buffer.host, "19");
}

#[test]
fn test_append_input_char_port_only_digits() {
    let mut app = create_test_app();
    app.input_buffer.clear();
    app.input_field = 3;
    append_input_char(&mut app, '2');
    assert_eq!(app.input_buffer.port, "222");
    append_input_char(&mut app, '2');
    assert_eq!(app.input_buffer.port, "2222");
    append_input_char(&mut app, '2');
    assert_eq!(app.input_buffer.port, "22222");
    append_input_char(&mut app, '2');
    assert_eq!(app.input_buffer.port, "22222");
    append_input_char(&mut app, 'a');
    assert_eq!(app.input_buffer.port, "22222");
}

#[test]
fn test_delete_input_char() {
    let mut app = create_test_app();
    app.input_buffer.alias = "test".to_string();
    app.input_field = 0;
    delete_input_char(&mut app);
    assert_eq!(app.input_buffer.alias, "tes");
    delete_input_char(&mut app);
    assert_eq!(app.input_buffer.alias, "te");
}

#[test]
fn test_advance_input_field() {
    let mut app = create_test_app();
    assert_eq!(app.input_field, 0);
    for expected in [1, 2, 3, 4, 5, 5] {
        advance_input_field(&mut app);
        assert_eq!(app.input_field, expected);
    }
}

#[test]
fn test_update_filter_empty_query() {
    let mut app = create_test_app();
    app.search_query = String::new();
    app.update_filter();
    assert_eq!(app.filtered_indices, vec![0, 1, 2]);
}

#[test]
fn test_update_filter_by_alias() {
    let mut app = create_test_app();
    app.search_query = "prod".to_string();
    app.update_filter();
    assert_eq!(app.filtered_indices, vec![0]);
}

#[test]
fn test_update_filter_by_host() {
    let mut app = create_test_app();
    app.search_query = "192.168.1.20".to_string();
    app.update_filter();
    assert_eq!(app.filtered_indices, vec![1]);
}

#[test]
fn test_update_filter_by_user() {
    let mut app = create_test_app();
    app.search_query = "admin".to_string();
    app.update_filter();
    assert_eq!(app.filtered_indices, vec![0]);
}

#[test]
fn test_update_filter_partial_match() {
    let mut app = create_test_app();
    app.search_query = "server".to_string();
    app.update_filter();
    assert_eq!(app.filtered_indices.len(), 3);
}

#[test]
fn test_update_filter_no_match() {
    let mut app = create_test_app();
    app.search_query = "nonexistent".to_string();
    app.update_filter();
    assert!(app.filtered_indices.is_empty());
}

#[test]
fn test_update_filter_bounds_check() {
    let mut app = create_test_app();
    app.selected_index = 10;
    app.search_query = "prod".to_string();
    app.update_filter();
    assert!(app.selected_index < app.filtered_indices.len());
}

#[test]
fn app_test_add_connection() {
    let mut app = create_test_app();
    app.mode = AppMode::Add;
    app.input_buffer = draft("new-server", "192.168.1.50", "newuser", "22", "", "");
    save_connection(&mut app);
    assert_eq!(app.config.connections.len(), 4);
}

#[test]
fn test_delete_connection() {
    let mut app = create_test_app();
    app.selected_index = 0;
    delete_connection(&mut app);
    assert_eq!(app.config.connections.len(), 2);
}

#[test]
fn test_delete_connection_updates_filter() {
    let mut app = create_test_app();
    app.search_query = "prod".to_string();
    app.update_filter();
    assert_eq!(app.filtered_indices.len(), 1);
    app.selected_index = 0;
    delete_connection(&mut app);
    assert!(app.filtered_indices.is_empty());
}

#[test]
fn test_filtered_indices_maintained_after_search() {
    let mut app = create_test_app();
    app.search_query = "server".to_string();
    app.update_filter();
    let filtered = app.filtered_indices.clone();
    app.search_query = "prod".to_string();
    app.update_filter();
    assert_ne!(app.filtered_indices, filtered);
}

#[test]
fn test_multiple_input_fields() {
    let mut app = create_test_app();
    app.input_field = 0;
    for c in "alias".chars() {
        append_input_char(&mut app, c);
    }
    advance_input_field(&mut app);
    app.input_field = 1;
    for c in "host".chars() {
        append_input_char(&mut app, c);
    }
    assert_eq!(app.input_buffer.alias, "alias");
    assert_eq!(app.input_buffer.host, "host");
}

#[test]
fn test_input_field_bounds() {
    let mut app = create_test_app();
    for _ in 0..10 {
        advance_input_field(&mut app);
    }
    assert_eq!(app.input_field, 5);
}

#[test]
fn test_delete_char_from_empty_field() {
    let mut app = create_test_app();
    app.input_buffer.clear();
    app.input_field = 0;
    delete_input_char(&mut app);
    assert!(app.input_buffer.alias.is_empty());
}

#[test]
fn test_delete_char_from_field() {
    let mut app = create_test_app();
    app.input_buffer.clear();
    app.input_buffer.alias = "test".to_string();
    app.input_field = 0;
    delete_input_char(&mut app);
    assert_eq!(app.input_buffer.alias, "tes");
}

#[test]
fn test_delete_char_advances_to_previous_field() {
    let mut app = create_test_app();
    app.input_buffer.clear();
    app.input_buffer.alias = "test".to_string();
    app.input_field = 0;
    delete_input_char(&mut app);
    assert_eq!(app.input_buffer.alias, "tes");
}

#[test]
fn test_update_filter_with_case_insensitive() {
    let mut app = create_test_app();
    app.search_query = "prod".to_string();
    app.update_filter();
    assert_eq!(app.filtered_indices.len(), 1);
}

#[test]
fn test_update_filter_with_folder_not_searched() {
    let mut app = create_test_app();
    app.search_query = "production".to_string();
    app.update_filter();
    assert_eq!(app.filtered_indices.len(), 0);
}

#[test]
fn test_update_filter_resets_index_when_empty() {
    let mut app = create_test_app();
    app.selected_index = 5;
    app.search_query = "nonexistent".to_string();
    app.update_filter();
    assert_eq!(app.selected_index, 0);
}

#[test]
fn test_search_query_clear_on_escape() {
    let mut app = create_test_app();
    app.mode = AppMode::Search;
    app.search_query = "test".to_string();
    app.update_filter();
    app.search_key(key(KeyCode::Esc));
    assert_eq!(app.filtered_indices.len(), 3);
    assert!(app.search_query.is_empty());
    assert_eq!(app.mode, AppMode::Normal);
}

#[test]
fn test_filtered_indices_initial_state() {
    let app = create_test_app();
    assert_eq!(app.filtered_indices.len(), 3);
}

#[test]
fn test_search_query_default() {
    let app = create_test_app();
    assert!(app.search_query.is_empty());
}

#[test]
fn test_save_connection_add_mode() {
    let mut app = create_test_app();
    let initial_count = app.config.connections.len();
    app.mode = AppMode::Add;
    app.input_buffer = draft("new", "newhost", "newuser", "22", "", "");
    save_connection(&mut app);
    assert_eq!(app.config.connections.len(), initial_count + 1);
}

#[test]
fn test_save_connection_edit_mode() {
    let mut app = create_test_app();
    let initial_count = app.config.connections.len();
    app.mode = AppMode::Edit;
    app.selected_index = 0;
    app.input_buffer = draft("updated", "newhost", "newuser", "22", "", "");
    save_connection(&mut app);
    assert_eq!(app.config.connections.len(), initial_count);
    assert_eq!(app.config.connections[0].alias, "updated");
    assert_eq!(app.config.connections[0].id, "1");
}

#[test]
fn test_delete_connection_first() {
    let mut app = create_test_app();
    app.selected_index = 0;
    let initial_count = app.config.connections.len();
    delete_connection(&mut app);
    assert_eq!(app.config.connections.len(), initial_count - 1);
}

#[test]
fn test_delete_connection_last() {
    let mut app = create_test_app();
    app.selected_index = app.filtered_indices.len() - 1;
    let initial_count = app.config.connections.len();
    delete_connection(&mut app);
    assert_eq!(app.config.connections.len(), initial_count - 1);
}

#[test]
fn test_delete_connection_empty_list() {
    let mut app = App::new(Config::new());
    app.filtered_indices = vec![];
    app.selected_index = 0;
    assert_eq!(app.normal_key(key(KeyCode::Char('D'))), AppAction::Continue);
}

#[test]
fn test_update_filter_preserves_order() {
    let mut app = create_test_app();
    app.search_query = "server".to_string();
    app.update_filter();
    assert!(app.filtered_indices.len() > 1);
}

#[test]
fn test_update_filter_all_match() {
    let mut app = create_test_app();
    app.search_query = "server".to_string();
    app.update_filter();
    assert!(!app.filtered_indices.is_empty());
}

#[test]
fn test_app_initialization() {
    let app = App::new(Config::new());
    assert_eq!(app.selected_index, 0);
    assert_eq!(app.mode, AppMode::Normal);
    assert_eq!(app.input_field, 0);
}

#[test]
fn test_app_with_empty_config() {
    let app = App::new(Config::new());
    assert!(app.selected_index == 0);
    assert!(app.filtered_indices.is_empty());
}

#[test]
fn test_update_filter_with_special_chars() {
    let mut app = create_test_app();
    app.search_query = "@".to_string();
    app.update_filter();
    assert!(app.filtered_indices.len() <= 3);
}

#[test]
fn test_update_filter_with_numbers() {
    let mut app = create_test_app();
    app.search_query = "192".to_string();
    app.update_filter();
    assert!(!app.filtered_indices.is_empty());
}

#[test]
fn test_delete_connection_middle() {
    let mut app = create_test_app();
    app.selected_index = 1;
    let initial_count = app.config.connections.len();
    delete_connection(&mut app);
    assert_eq!(app.config.connections.len(), initial_count - 1);
    assert!(app.config.connections.iter().all(|c| c.id != "2"));
}

#[test]
fn test_save_connection_with_all_fields() {
    let mut app = create_test_app();
    app.mode = AppMode::Add;
    app.input_buffer = draft("full", "fullhost", "fulluser", "2222", "/full/key", "fullfolder");
    save_connection(&mut app);
    let conn = app.config.connections.last().unwrap();
    assert_eq!(conn.alias, "full");
    assert_eq!(conn.host, "fullhost");
    assert_eq!(conn.user, "fulluser");
    assert_eq!(conn.port, 2222);
    assert_eq!(conn.key_path, Some("/full/key".to_string()));
    assert_eq!(conn.folder, Some("fullfolder".to_string()));
}

#[test]
fn test_save_connection_with_empty_port_uses_default() {
    let mut app = create_test_app();
    app.mode = AppMode::Add;
    app.input_buffer = draft("test", "testhost", "testuser", "", "", "");
    save_connection(&mut app);
    let conn = app.config.connections.last().unwrap();
    assert_eq!(conn.port, 22);
}

#[test]
fn test_delete_connection_updates_filter_after_delete() {
    let mut app = create_test_app();
    app.selected_index = 0;
    delete_connection(&mut app);
    assert!(app.filtered_indices.is_empty() || app.filtered_indices.len() < 3);
}

#[test]
fn test_advance_input_field_does_not_exceed_max() {
    let mut app = create_test_app();
    for _ in 0..20 {
        advance_input_field(&mut app);
    }
    assert_eq!(app.input_field, 5);
}

#[test]
fn test_append_char_different_fields() {
    let mut app = create_test_app();
    app.input_buffer.clear();
    app.input_field = 0;
    append_input_char(&mut app, 'x');
    app.input_field = 1;
    append_input_char(&mut app, 'y');
    app.input_field = 2;
    append_input_char(&mut app, 'z');
    assert_eq!(app.input_buffer.alias, "x");
    assert_eq!(app.input_buffer.host, "y");
    assert_eq!(app.input_buffer.user, "z");
}

#[test]
fn test_delete_char_different_fields() {
    let mut app = create_test_app();
    app.input_buffer.clear();
    app.input_buffer.alias = "aa".to_string();
    app.input_buffer.host = "bb".to_string();
    app.input_buffer.user = "cc".to_string();
    for field in 0..3 {
        app.input_field = field;
        delete_input_char(&mut app);
    }
    assert_eq!(app.input_buffer.alias, "a");
    assert_eq!(app.input_buffer.host, "b");
    assert_eq!(app.input_buffer.user, "c");
}

#[test]
fn test_delete_connection_after_filter() {
    let mut app = create_test_app();
    app.search_query = "prod".to_string();
    app.update_filter();
    app.selected_index = 0;
    delete_connection(&mut app);
    assert!(app.filtered_indices.is_empty());
}

#[test]
fn test_delete_input_char_key_path_field() {
    let mut app = create_test_app();
    app.input_buffer.clear();
    app.input_field = 4;
    app.input_buffer.key_path = "/path/to/key".to_string();
    delete_input_char(&mut app);
    assert_eq!(app.input_buffer.key_path, "/path/to/ke");
}

#[test]
fn test_delete_input_char_folder_field() {
    let mut app = create_test_app();
    app.input_buffer.clear();
    app.input_field = 5;
    app.input_buffer.folder = "myfolder".to_string();
    delete_input_char(&mut app);
    assert_eq!(app.input_buffer.folder.len(), "myfolder".len() - 1);
}

#[test]
fn test_delete_connection_index_bounds() {
    let mut app = create_test_app();
    app.selected_index = 100;
    assert_eq!(app.normal_key(key(KeyCode::Char('D'))), AppAction::Continue);
    assert_eq!(app.config.connections.len(), 3);
}

#[test]
fn test_update_filter_exact_match() {
    let mut app = create_test_app();
    app.search_query = "prod-server".to_string();
    app.update_filter();
    assert!(!app.filtered_indices.is_empty());
}

#[test]
fn test_handle_normal_mode_up_key() {
    let mut app = create_test_app();
    app.selected_index = 2;
    app.normal_key(key(KeyCode::Up));
    assert_eq!(app.selected_index, 1);
}

#[test]
fn test_handle_normal_mode_down_key() {
    let mut app = create_test_app();
    app.selected_index = 0;
    app.normal_key(key(KeyCode::Down));
    assert_eq!(app.selected_index, 1);
}

#[test]
fn test_handle_normal_mode_up_at_boundary() {
    let mut app = create_test_app();
    app.selected_index = 0;
    app.normal_key(key(KeyCode::Up));
    assert_eq!(app.selected_index, 0);
}

#[test]
fn test_handle_normal_mode_down_at_boundary() {
    let mut app = create_test_app();
    let len = app.filtered_indices.len();
    app.selected_index = len - 1;
    app.normal_key(key(KeyCode::Down));
    assert_eq!(app.selected_index, len - 1);
}

#[test]
fn test_handle_normal_mode_ctrl_c_count() {
    let mut app = create_test_app();
    let ctrl_c = KeyEvent::new(KeyCode::Char('c'), sshm::keys::KeyModifiers::control_only());
    assert_eq!(app.normal_key(ctrl_c), AppAction::Continue);
    assert_eq!(app.ctrl_c_count, 1);
    assert_eq!(app.message.as_deref(), Some("Press Ctrl+C again to exit"));
    assert_eq!(app.normal_key(ctrl_c), AppAction::Quit);
    assert_eq!(app.ctrl_c_count, 2);
}

#[test]
fn test_handle_normal_mode_reset_ctrl_c() {
    let mut app = create_test_app();
    app.ctrl_c_count = 1;
    app.normal_key(key(KeyCode::Down));
    assert_eq!(app.ctrl_c_count, 0);
}

#[test]
fn test_handle_search_mode_query_appending() {
    let mut app = create_test_app();
    app.mode = AppMode::Search;
    for c in "test".chars() {
        app.search_key(key(KeyCode::Char(c)));
    }
    assert_eq!(app.search_query, "test");
}

#[test]
fn test_handle_search_mode_query_pop() {
    let mut app = create_test_app();
    app.mode = AppMode::Search;
    app.search_query = "test".to_string();
    app.search_key(key(KeyCode::Backspace));
    assert_eq!(app.search_query, "tes");
    app.search_key(key(KeyCode::Backspace));
    assert_eq!(app.search_query, "te");
}

#[test]
fn test_handle_search_mode_clear_on_escape() {
    let mut app = create_test_app();
    app.mode = AppMode::Search;
    app.search_query = "test".to_string();
    app.search_key(key(KeyCode::Esc));
    assert!(app.search_query.is_empty());
    assert_eq!(app.filtered_indices.len(), 3);
}

#[test]
fn test_handle_search_mode_navigation_j() {
    let mut app = create_test_app();
    app.mode = AppMode::Search;
    app.selected_index = 0;
    app.search_key(key(KeyCode::Char('j')));
    assert_eq!(app.selected_index, 1);
    app.search_key(key(KeyCode::Char('j')));
    assert_eq!(app.selected_index, 2);
    app.search_key(key(KeyCode::Char('j')));
    assert_eq!(app.selected_index, 2);
}

#[test]
fn test_handle_search_mode_navigation_k() {
    let mut app = create_test_app();
    app.mode = AppMode::Search;
    app.selected_index = 2;
    app.search_key(key(KeyCode::Char('k')));
    assert_eq!(app.selected_index, 1);
    app.search_key(key(KeyCode::Char('k')));
    assert_eq!(app.selected_index, 0);
    app.search_key(key(KeyCode::Char('k')));
    assert_eq!(app.selected_index, 0);
}

#[test]
fn test_handle_search_mode_navigation_with_filter() {
    let mut app = create_test_app();
    app.mode = AppMode::Search;
    app.search_query = "server".to_string();
    app.update_filter();
    app.selected_index = 0;
    app.search_key(key(KeyCode::Char('j')));
    assert!(app.selected_index > 0);
    assert!(app.selected_index < app.filtered_indices.len());
    app.search_key(key(KeyCode::Char('k')));
    assert_eq!(app.selected_index, 0);
}

#[test]
fn test_handle_help_mode_mode_transition() {
    let mut app = create_test_app();
    app.normal_key(key(KeyCode::Char('?')));
    assert_eq!(app.mode, AppMode::Help);
    app.help_key(key(KeyCode::Esc));
    assert_eq!(app.mode, AppMode::Normal);
}

#[test]
fn test_import_connections_message() {
    let mut app = create_test_app();
    app.saved(SaveKind::Imported(5), Ok(()));
    assert_eq!(app.message, Some("Imported 5 connections".to_string()));
}

#[test]
fn test_connect_sets_should_connect() {
    let mut app = create_test_app();
    app.selected_index = 0;
    assert_eq!(app.normal_key(key(KeyCode::Enter)), AppAction::Connect);
    assert_eq!(app.should_connect.as_ref().map(|c| c.id.as_str()), Some("1"));
}

#[test]
fn test_connect_with_empty_filtered_indices() {
    let mut app = create_test_app();
    app.filtered_indices = vec![];
    app.selected_index = 0;
    app.normal_key(key(KeyCode::Enter));
    assert!(app.should_connect.is_none());
}

#[test]
fn test_connect_with_out_of_bounds_index() {
    let mut app = create_test_app();
    app.selected_index = 100;
    app.normal_key(key(KeyCode::Enter));
    assert!(app.should_connect.is_none());
}

#[test]
fn test_update_filter_empty_query_collects_all() {
    let mut app = create_test_app();
    app.search_query = String::new();
    app.update_filter();
    assert_eq!(app.filtered_indices.len(), 3);
}

#[test]
fn test_update_filter_with_fuzzy_match() {
    let mut app = create_test_app();
    app.search_query = "prod".to_string();
    app.update_filter();
    assert!(!app.filtered_indices.is_empty());
}

#[test]
fn test_update_filter_with_no_match() {
    let mut app = create_test_app();
    app.search_query = "zzzzzz".to_string();
    app.update_filter();
    assert!(app.filtered_indices.is_empty());
}

#[test]
fn test_save_connection_add_with_message() {
    let mut app = create_test_app();
    let initial_count = app.config.connections.len();
    app.mode = AppMode::Add;
    app.input_buffer = draft("new-server", "newhost", "newuser", "22", "", "");
    save_connection(&mut app);
    assert_eq!(app.config.connections.len(), initial_count + 1);
    assert_eq!(app.message.as_deref(), Some("Connection saved!"));
}

#[test]
fn test_delete_connection_with_message() {
    let mut app = create_test_app();
    app.selected_index = 0;
    delete_connection(&mut app);
    assert_eq!(app.message.as_deref(), Some("Connection deleted"));
}

#[test]
fn test_app_lifecycle() {
    let app = App::new(Config::new());
    assert_eq!(app.mode, AppMode::Normal);
    assert!(app.search_query.is_empty());
    assert_eq!(app.selected_index, 0);
}

#[test]
fn test_app_initial_state() {
    let app = App::new(Config::new());
    assert_eq!(app.selected_index, 0);
    assert!(app.search_query.is_empty());
    assert_eq!(app.mode, AppMode::Normal);
    assert!(app.message.is_none());
    assert!(app.should_connect.is_none());
}

#[test]
fn test_app_mode_transitions() {
    let mut app = create_test_app();
    assert_eq!(app.mode, AppMode::Normal);
    app.normal_key(key(KeyCode::Char('A')));
    assert_eq!(app.mode, AppMode::Add);
    app.input_key(key(KeyCode::Esc));
    assert_eq!(app.mode, AppMode::Normal);
    app.normal_key(key(KeyCode::Char('E')));
    assert_eq!(app.mode, AppMode::Edit);
    app.input_key(key(KeyCode::Esc));
    app.normal_key(key(KeyCode::Char('/')));
    assert_eq!(app.mode, AppMode::Search);
}

#[test]
fn test_selected_index_bounds() {
    let mut app = create_test_app();
    app.normal_key(key(KeyCode::End));
    assert_eq!(app.selected_index, app.filtered_indices.len() - 1);
    app.normal_key(key(KeyCode::Down));
    assert!(app.selected_index < app.filtered_indices.len());
}

#[test]
fn test_message_handling() {
    let mut app = create_test_app();
    app.message = Some("test message".to_string());
    assert_eq!(app.message_key("test message", key(KeyCode::Char('x'))), sshm::app::MessageAction::Stay);
    assert!(app.message.is_some());
    assert_eq!(app.message_key("test message", key(KeyCode::Enter)), sshm::app::MessageAction::Dismiss);
    assert!(app.message.is_none());
}

#[test]
fn test_search_query_with_spaces() {
    let mut app = create_test_app();
    app.search_query = "  ".to_string();
    app.update_filter();
    assert!(app.filtered_indices.len() <= 3);
}

#[test]
fn test_update_filter_unicode_chars() {
    let mut app = create_test_app();
    app.search_query = "é".to_string();
    app.update_filter();
    assert!(app.selected_index == 0);
}

#[test]
fn test_search_query_appending() {
    let mut app = create_test_app();
    app.normal_key(key(KeyCode::Char('s')));
    app.normal_key(key(KeyCode::Char('e')));
    assert_eq!(app.search_query, "se");
}

#[test]
fn test_search_query_pop() {
    let mut app = create_test_app();
    app.search_query = "test".to_string();
    app.normal_key(key(KeyCode::Backspace));
    assert_eq!(app.search_query.len(), 3);
}

#[test]
fn test_message_handling_with_some() {
    let mut app = create_test_app();
    app.message = Some("test message".to_string());
    app.message_key("test message", key(KeyCode::Esc));
    assert!(app.message.is_none());
}

#[test]
fn test_mode_transitions() {
    let mut app = create_test_app();
    app.normal_key(key(KeyCode::Char('?')));
    assert_eq!(app.mode, AppMode::Help);
    app.help_key(key(KeyCode::Char('q')));
    assert_eq!(app.mode, AppMode::Normal);
    app.mode = AppMode::Update;
    app.update_key(key(KeyCode::Char('L')));
    assert_eq!(app.mode, AppMode::Normal);
    app.mode = AppMode::Update;
    app.update_key(key(KeyCode::Char('u')));
    assert_eq!(app.mode, AppMode::Normal);
    assert_eq!(app.message.as_deref(), Some("Update functionality not yet implemented"));
}

#[test]
fn test_handle_normal_mode_navigation_keys() {
    let mut app = create_test_app();
    app.normal_key(key(KeyCode::Char('j')));
    assert_eq!(app.selected_index, 1);
    app.normal_key(key(KeyCode::Char('k')));
    assert_eq!(app.selected_index, 0);
}

#[test]
fn test_handle_normal_mode_home_key() {
    let mut app = create_test_app();
    app.selected_index = 2;
    app.normal_key(key(KeyCode::Home));
    assert_eq!(app.selected_index, 0);
    app.selected_index = 2;
    app.normal_key(key(KeyCode::Char('g')));
    assert_eq!(app.selected_index, 0);
}

#[test]
fn test_handle_normal_mode_end_key() {
    let mut app = create_test_app();
    let expected_end = app.filtered_indices.len().saturating_sub(1);
    app.normal_key(key(KeyCode::End));
    assert_eq!(app.selected_index, expected_end);
    app.selected_index = 0;
    app.normal_key(key(KeyCode::Char('G')));
    assert_eq!(app.selected_index, expected_end);
}

#[test]
fn test_handle_search_mode_backspace() {
    let mut app = create_test_app();
    app.mode = AppMode::Search;
    app.search_query = "test".to_string();
    app.search_key(key(KeyCode::Backspace));
    assert_eq!(app.search_query, "tes");
    app.search_key(key(KeyCode::Backspace));
    assert_eq!(app.search_query, "te");
}

#[test]
fn test_handle_help_mode_key_handling() {
    let mut app = create_test_app();
    app.mode = AppMode::Help;
    app.help_key(key(KeyCode::Char('x')));
    assert_eq!(app.mode, AppMode::Help);
    app.help_key(key(KeyCode::Enter));
    assert_eq!(app.mode, AppMode::Normal);
}

#[test]
fn test_connect_function() {
    let mut app = create_test_app();
    app.selected_index = 0;
    app.normal_key(key(KeyCode::Enter));
    assert!(app.should_connect.is_some());
    if let Some(conn) = &app.should_connect {
        assert_eq!(conn.alias, "prod-server");
    }
}

#[test]
fn test_app_fields_are_initialized() {
    let app = App::new(Config::new());
    assert_eq!(app.selected_index, 0);
    assert!(app.search_query.is_empty());
    assert_eq!(app.mode, AppMode::Normal);
    assert!(app.message.is_none());
    assert_eq!(app.input_field, 0);
    assert!(app.should_connect.is_none());
    assert_eq!(app.ctrl_c_count, 0);
    assert!(app.update_info.is_none());
}

#[test]
fn saving_a_connection_says_so_and_returns_to_normal_mode() {
    let mut app = create_test_app();
    app.mode = AppMode::Add;
    app.input_buffer = draft("pin-server", "10.0.0.7", "deploy", "22", "", "");
    save_connection(&mut app);
    assert_eq!(app.message, Some("Connection saved!".to_string()));
    assert_eq!(app.mode, AppMode::Normal);
}

#[test]
fn saving_an_edit_with_nothing_selected_says_so_instead_of_claiming_a_save() {
    let mut app = create_test_app();
    app.mode = AppMode::Edit;
    app.filtered_indices = Vec::new();
    app.input_buffer = draft("ghost", "10.9.9.9", "x", "22", "", "");
    save_connection(&mut app);
    assert_eq!(app.message, Some("No Connection selected to edit".to_string()));
    assert_eq!(app.config.connections.len(), 3, "nothing was added");
    assert_eq!(app.mode, AppMode::Normal);
}

#[test]
fn deleting_a_connection_says_so() {
    let mut app = create_test_app();
    app.selected_index = 0;
    delete_connection(&mut app);
    assert_eq!(app.message, Some("Connection deleted".to_string()));
}

#[test]
fn importing_says_how_many_connections_came_across() {
    let entries = sshm::config::parse_ssh_config(
        "Host web-01\n  HostName 10.0.0.4\n  User deploy\n\nHost db-01\n  HostName 10.0.0.9\n  User dba\n",
    );
    let mut app = create_test_app();
    if let AppAction::Save(kind) = app.import_entries(entries) {
        app.saved(kind, Ok(()));
    }
    assert_eq!(app.message, Some("Imported 2 connections".to_string()));
}

#[test]
fn a_failed_write_names_its_reason() {
    let mut app = create_test_app();
    app.saved(SaveKind::Saved, Err("disk full".to_string()));
    assert_eq!(app.message, Some("Error saving: disk full".to_string()));
}

#[test]
fn test_app_with_config() {
    let mut config = Config::new();
    config.add_connection(Connection {
        id: "1".to_string(),
        alias: "test".to_string(),
        host: "example.com".to_string(),
        user: "admin".to_string(),
        port: 22,
        key_path: None,
        folder: None,
    });
    let app = App::new(config);
    assert_eq!(app.config.connections.len(), 1);
    assert_eq!(app.filtered_indices, vec![0]);
}
