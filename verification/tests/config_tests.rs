use sshm::config::{parse_ssh_config, Config, Connection, SshConfigEntry};

fn conn(id: &str, alias: &str, host: &str, user: &str) -> Connection {
    Connection {
        id: id.to_string(),
        alias: alias.to_string(),
        host: host.to_string(),
        user: user.to_string(),
        port: 22,
        key_path: None,
        folder: None,
    }
}

#[test]
fn test_connection_new() {
    let conn = Connection::new("test".to_string(), "192.168.1.1".to_string(), "user".to_string());
    assert_eq!(conn.alias, "test");
    assert_eq!(conn.host, "192.168.1.1");
    assert_eq!(conn.user, "user");
    assert_eq!(conn.port, 22);
    assert!(conn.key_path.is_none());
    assert!(conn.folder.is_none());
}

#[test]
fn test_connection_with_all_fields() {
    let conn = Connection {
        id: "id1".to_string(),
        alias: "prod".to_string(),
        host: "server.example.com".to_string(),
        user: "admin".to_string(),
        port: 2222,
        key_path: Some("/path/to/key".to_string()),
        folder: Some("production".to_string()),
    };
    assert_eq!(conn.id, "id1");
    assert_eq!(conn.alias, "prod");
    assert_eq!(conn.host, "server.example.com");
    assert_eq!(conn.user, "admin");
    assert_eq!(conn.port, 2222);
    assert_eq!(conn.key_path, Some("/path/to/key".to_string()));
    assert_eq!(conn.folder, Some("production".to_string()));
}

#[test]
fn test_config_new() {
    let config = Config::new();
    assert!(config.connections.is_empty());
}

#[test]
fn test_config_from_connections() {
    let mut config = Config::new();
    config.add_connection(conn("1", "a", "h1", "u1"));
    config.add_connection(conn("2", "b", "h2", "u2"));
    assert_eq!(config.connections.len(), 2);
}

#[test]
fn config_test_add_connection() {
    let mut config = Config::new();
    let conn = Connection::new("test".to_string(), "192.168.1.1".to_string(), "user".to_string());
    config.add_connection(conn);
    assert_eq!(config.connections.len(), 1);
}

#[test]
fn test_remove_connection() {
    let mut config = Config::new();
    config.add_connection(conn("test-id", "test", "192.168.1.1", "user"));
    assert_eq!(config.connections.len(), 1);
    config.remove_connection("test-id");
    assert_eq!(config.connections.len(), 0);
}

#[test]
fn test_remove_connection_not_found() {
    let mut config = Config::new();
    config.add_connection(conn("test-id", "test", "192.168.1.1", "user"));
    config.remove_connection("non-existent-id");
    assert_eq!(config.connections.len(), 1);
}

#[test]
fn test_update_connection() {
    let mut config = Config::new();
    config.add_connection(conn("test-id", "test", "192.168.1.1", "user"));
    config.update_connection(Connection {
        id: "test-id".to_string(),
        alias: "updated".to_string(),
        host: "192.168.1.2".to_string(),
        user: "admin".to_string(),
        port: 2222,
        key_path: None,
        folder: None,
    });
    assert_eq!(config.connections.len(), 1);
    assert_eq!(config.connections[0].alias, "updated");
    assert_eq!(config.connections[0].host, "192.168.1.2");
}

#[test]
fn test_update_connection_not_found() {
    let mut config = Config::new();
    config.add_connection(conn("test-id", "test", "192.168.1.1", "user"));
    config.update_connection(Connection {
        id: "other-id".to_string(),
        alias: "updated".to_string(),
        host: "192.168.1.2".to_string(),
        user: "admin".to_string(),
        port: 2222,
        key_path: None,
        folder: None,
    });
    assert_eq!(config.connections.len(), 1);
    assert_eq!(config.connections[0].alias, "test");
}

#[test]
fn test_folder_sorted() {
    let mut config = Config::new();
    let mut a = conn("1", "a", "h1", "u1");
    a.folder = Some("zebra".to_string());
    let mut b = conn("2", "b", "h2", "u2");
    b.folder = Some("apple".to_string());
    let mut c = conn("3", "c", "h3", "u3");
    c.folder = Some("banana".to_string());
    config.add_connection(a);
    config.add_connection(b);
    config.add_connection(c);
    let folders: Vec<String> = config.connections.iter().filter_map(|c| c.folder.clone()).collect();
    let mut folders_sorted = folders.clone();
    folders_sorted.sort();
    folders_sorted.dedup();
    assert_eq!(folders_sorted, vec!["apple", "banana", "zebra"]);
}

#[test]
fn test_ssh_config_entry_debug() {
    let entry = SshConfigEntry {
        host: "test".to_string(),
        user: Some("user".to_string()),
        port: Some(22),
        key_file: None,
        hostname: None,
    };
    let debug = format!("{:?}", entry);
    assert!(debug.contains("test"));
}

#[test]
fn test_connection_debug() {
    let conn = Connection::new("alias".to_string(), "host".to_string(), "user".to_string());
    let debug = format!("{:?}", conn);
    assert!(debug.contains("alias"));
}

#[test]
fn test_config_debug() {
    let config = Config::new();
    let debug = format!("{:?}", config);
    assert!(debug.contains("connections"));
}

#[test]
fn test_config_impl_default() {
    let config = Config::default();
    assert!(config.connections.is_empty());
}

#[test]
fn test_update_connection_with_existing_id() {
    let mut config = Config::new();
    config.add_connection(conn("conn-1", "original", "original.example.com", "original"));
    config.add_connection(conn("conn-2", "other", "other.example.com", "other"));
    config.update_connection(Connection {
        id: "conn-1".to_string(),
        alias: "updated".to_string(),
        host: "updated.example.com".to_string(),
        user: "updated".to_string(),
        port: 2222,
        key_path: Some("/new/key".to_string()),
        folder: Some("new-folder".to_string()),
    });
    assert_eq!(config.connections.len(), 2);
    let updated = config.connections.iter().find(|c| c.id == "conn-1").unwrap();
    assert_eq!(updated.alias, "updated");
    assert_eq!(updated.host, "updated.example.com");
    assert_eq!(updated.user, "updated");
    assert_eq!(updated.port, 2222);
    assert_eq!(updated.key_path, Some("/new/key".to_string()));
    assert_eq!(updated.folder, Some("new-folder".to_string()));
}

#[test]
fn test_update_connection_preserves_other_connections() {
    let mut config = Config::new();
    config.add_connection(conn("conn-1", "original", "original.example.com", "original"));
    config.add_connection(conn("conn-2", "other", "other.example.com", "other"));
    config.update_connection(Connection {
        id: "conn-1".to_string(),
        alias: "updated".to_string(),
        host: "updated.example.com".to_string(),
        user: "updated".to_string(),
        port: 2222,
        key_path: None,
        folder: None,
    });
    let other = config.connections.iter().find(|c| c.id == "conn-2").unwrap();
    assert_eq!(other.alias, "other");
    assert_eq!(other.host, "other.example.com");
}

#[test]
fn test_remove_connection_with_existing_id() {
    let mut config = Config::new();
    config.add_connection(conn("conn-1", "server1", "server1.example.com", "user1"));
    config.add_connection(conn("conn-2", "server2", "server2.example.com", "user2"));
    config.add_connection(conn("conn-3", "server3", "server3.example.com", "user3"));
    config.remove_connection("conn-2");
    assert_eq!(config.connections.len(), 2);
    let ids: Vec<&str> = config.connections.iter().map(|c| c.id.as_str()).collect();
    assert!(ids.contains(&"conn-1"));
    assert!(ids.contains(&"conn-3"));
    assert!(!ids.contains(&"conn-2"));
}

#[test]
fn test_remove_connection_from_empty_config() {
    let mut config = Config::new();
    config.remove_connection("non-existent");
    assert!(config.connections.is_empty());
}

#[test]
fn test_remove_connection_last_connection() {
    let mut config = Config::new();
    config.add_connection(conn("last-conn", "last", "last.example.com", "user"));
    config.remove_connection("last-conn");
    assert!(config.connections.is_empty());
}

// ── the ssh config reader ──

#[test]
fn parse_reads_each_host_stanza_with_its_keys() {
    let text = "Host web\n  HostName 10.0.0.5\n  User deploy\n  Port 2200\n  IdentityFile ~/.ssh/web\n\nHost db\n  User admin\n";
    let entries = parse_ssh_config(text);
    assert_eq!(entries.len(), 2);
    assert_eq!(entries[0].host, "web");
    assert_eq!(entries[0].hostname.as_deref(), Some("10.0.0.5"));
    assert_eq!(entries[0].user.as_deref(), Some("deploy"));
    assert_eq!(entries[0].port, Some(2200));
    assert_eq!(entries[0].key_file.as_deref(), Some("~/.ssh/web"));
    assert_eq!(entries[1].host, "db");
    assert_eq!(entries[1].user.as_deref(), Some("admin"));
    assert_eq!(entries[1].port, None);
}

#[test]
fn parse_of_empty_text_finds_nothing() {
    assert!(parse_ssh_config("").is_empty());
}

#[test]
fn update_of_an_unknown_id_changes_nothing_and_remove_keeps_order() {
    let mut config = Config::new();
    config.add_connection(conn("1", "a", "h1", "u"));
    config.add_connection(conn("2", "b", "h2", "u"));
    config.add_connection(conn("3", "c", "h3", "u"));
    config.remove_connection("2");
    let aliases: Vec<&str> = config.connections.iter().map(|c| c.alias.as_str()).collect();
    assert_eq!(aliases, vec!["a", "c"]);
}

#[test]
fn a_new_connection_gets_a_hyphenated_lower_case_v4_id() {
    let c = Connection::new("a".to_string(), "h".to_string(), "u".to_string());
    let id: Vec<char> = c.id.chars().collect();
    assert_eq!(id.len(), 36);
    for (i, ch) in id.iter().enumerate() {
        if [8, 13, 18, 23].contains(&i) {
            assert_eq!(*ch, '-');
        } else {
            assert!(ch.is_ascii_digit() || ('a'..='f').contains(ch), "{ch} at {i}");
        }
    }
    assert_eq!(id[14], '4');
}
