use std::io;
use std::io::Write;

use sshm::cli::{
    add_command_connection, dev_build_text, first_run_import_offer, generate_init_bash_script,
    generate_init_zsh_script, retryable_text, route, unwritable_text, update_answer,
    write_check_answer, CommandKind, Route,
};
use sshm::config::{Connection, SshConfigEntry};
use sshm::emit::{frame_stream, Action, Emit, FrameStream};
use sshm::inline::{plan_resize, InlineOutcome, Live, ResizePlan};
use sshm::picker::{build_ssh_command, PickerOutcome};
use sshm::ssh::build_ssh_args;
use sshm::style::{settle_plain, visible_window};
use sshm::theme::ColorSupport;
use sshm::update::{ApplyResult, UpdateResult};

// ── main: what each outcome says ──

#[test]
fn an_unwritable_install_location_names_the_binary_and_offers_install_sh() {
    let text = unwritable_text("/usr/local/bin/sshm");
    assert!(text.contains("/usr/local/bin/sshm"), "the unwritable path must be named: {text}");
    assert!(text.contains("install.sh"), "the escape hatch belongs here: {text}");
}

#[test]
fn a_dev_build_refusal_names_the_variable_that_marks_it() {
    let text = dev_build_text("/home/dev/ssh-manager/sshm");
    assert!(text.contains("CARGO_MANIFEST_DIR"), "a refusal must say what made it: {text}");
    assert!(!text.contains("install.sh"), "a checkout is not a permissions problem: {text}");
}

#[test]
fn a_retryable_failure_asks_for_a_retry_and_not_for_install_sh() {
    for reason in [
        "api request failed with status: 403",
        "No asset found for target: `aarch64-apple-darwin`",
    ] {
        let text = retryable_text(reason);
        assert!(text.contains(reason), "the reason is kept: {text}");
        assert!(!text.contains("install.sh"), "no escape hatch for a retryable failure: {text}");
    }
}

#[test]
fn the_check_answer_names_sshm_update_as_the_way_to_install() {
    let mut out = Vec::new();
    write_check_answer(&mut out, &UpdateResult::UpdateAvailable { version: "0.9.9".to_string() })
        .expect("an available update is not a failure");
    let text = String::from_utf8(out).unwrap();
    assert!(text.contains("0.9.9"), "the version is reported: {text}");
    assert!(text.contains("sshm update"), "the answer must point at the act: {text}");
}

#[test]
fn the_no_update_answer_offers_nothing_to_install() {
    let mut out = Vec::new();
    write_check_answer(&mut out, &UpdateResult::NoUpdate).unwrap();
    let text = String::from_utf8(out).unwrap();
    assert!(!text.contains("sshm update"), "up to date, yet told to update: {text}");
}

#[test]
fn a_failed_check_produces_no_answer_and_carries_its_reason() {
    let mut out = Vec::new();
    let err = write_check_answer(&mut out, &UpdateResult::Error("rate limited".to_string()))
        .expect_err("a failed check is not an answer");
    assert!(out.is_empty(), "a failure prints nothing on stdout");
    assert!(err.contains("rate limited"), "{err}");
}

#[test]
fn the_check_answer_is_two_exact_lines() {
    let mut out = Vec::new();
    write_check_answer(&mut out, &UpdateResult::UpdateAvailable { version: "1.2.3".to_string() }).unwrap();
    assert_eq!(String::from_utf8(out).unwrap(), "Update available: v1.2.3\nInstall it with: sshm update\n");
}

#[test]
fn install_sh_is_offered_on_the_unwritable_failure_only() {
    let answers = [
        ApplyResult::Applied { from: "0.1.0".to_string(), to: "0.2.0".to_string() },
        ApplyResult::UpToDate { version: "0.2.0".to_string() },
        ApplyResult::Unwritable { path: "/opt/sshm".to_string() },
        ApplyResult::DevBuild { manifest_dir: "/src".to_string() },
        ApplyResult::Error("boom".to_string()),
    ];
    let texts: Vec<Result<String, String>> = answers.iter().map(update_answer).collect();
    assert_eq!(texts[0], Ok("sshm 0.1.0 → 0.2.0".to_string()));
    assert_eq!(texts[1], Ok("sshm 0.2.0 is already the latest release.".to_string()));
    assert!(texts[2].as_ref().unwrap_err().contains("install.sh"));
    assert!(!texts[3].as_ref().unwrap_err().contains("install.sh"));
    assert_eq!(texts[4], Err("update failed: boom".to_string()));
}

#[test]
fn the_routes_of_the_command_line() {
    assert_eq!(route(None, false), Route::Connect);
    assert_eq!(route(None, true), Route::CheckUpdate);
    assert_eq!(route(Some(CommandKind::Pick), true), Route::Pick);
    assert_eq!(route(Some(CommandKind::Add), false), Route::Add);
    assert_eq!(route(Some(CommandKind::Add), true), Route::CheckUpdate);
    assert_eq!(route(Some(CommandKind::Update), true), Route::ApplyUpdate);
}

#[test]
fn add_requires_an_alias_and_a_host() {
    let no_alias = add_command_connection(None, Some("h".to_string()), None, 22, None, None);
    assert_eq!(no_alias.unwrap_err(), "Error: --alias is required");
    let no_host = add_command_connection(Some("a".to_string()), None, None, 22, None, None);
    assert_eq!(no_host.unwrap_err(), "Error: user@host is required");
    let ok = add_command_connection(Some("a".to_string()), Some("h".to_string()), None, 2200, None, Some("f".to_string()))
        .unwrap();
    assert_eq!(ok.alias, "a");
    assert_eq!(ok.user, "");
    assert_eq!(ok.port, 2200);
    assert_eq!(ok.folder.as_deref(), Some("f"));
}

#[test]
fn first_run_offer_counts_importable_stanzas_for_an_empty_store() {
    let entries = sshm::config::parse_ssh_config(
        "Host web-01\n    HostName web.example.com\n    User www\n\nHost db-01\n    HostName db.example.com\n    User dba\n",
    );
    assert_eq!(first_run_import_offer(&[], entries), Some(2));
}

#[test]
fn first_run_offer_is_silent_when_every_stanza_is_a_wildcard() {
    let entries = sshm::config::parse_ssh_config("Host *\n    User default\n\nHost *.internal\n    User internal\n");
    assert_eq!(entries.len(), 2);
    assert_eq!(first_run_import_offer(&[], entries), None);
}

#[test]
fn a_question_mark_host_is_a_pattern_too() {
    let pattern = SshConfigEntry { host: "db-?".to_string(), user: None, port: None, key_file: None, hostname: None };
    let named = SshConfigEntry { host: "db-1".to_string(), user: None, port: None, key_file: None, hostname: None };
    assert_eq!(first_run_import_offer(&[], vec![pattern, named]), Some(1));
}

#[test]
fn the_import_offer_is_made_on_an_empty_set_only() {
    let entry = SshConfigEntry { host: "web".to_string(), user: None, port: None, key_file: None, hostname: None };
    assert_eq!(first_run_import_offer(&[], vec![entry.clone()]), Some(1));
    assert_eq!(first_run_import_offer(&[], vec![]), None);
    let existing = Connection::new("x".to_string(), "y".to_string(), "z".to_string());
    assert_eq!(first_run_import_offer(&[existing], vec![entry]), None);
}

#[test]
fn init_scripts_bind_the_chosen_key() {
    let zsh = generate_init_zsh_script(false, None);
    assert!(zsh.contains("bindkey '\\e^S' _sshm_inline_picker"));
    let custom = generate_init_zsh_script(false, Some("^X"));
    assert!(custom.contains("# Bind key: ^X (override with SSHM_BIND_KEY)"));
    assert!(!generate_init_zsh_script(true, None).contains("bindkey '"));
    let bash = generate_init_bash_script(false, None);
    assert!(bash.contains("bind -x '\"\\e\\C-s\":_sshm_inline_picker'"));
    assert!(!generate_init_bash_script(true, Some("x")).contains("bind -x"));
}

// ── picker and ssh ──

fn make_connection(user: &str, host: &str, port: u16, key: Option<&str>) -> Connection {
    Connection {
        id: "1".to_string(),
        alias: "test".to_string(),
        host: host.to_string(),
        user: user.to_string(),
        port,
        key_path: key.map(|s| s.to_string()),
        folder: None,
    }
}

#[test]
fn test_build_ssh_command_basic() {
    let conn = make_connection("admin", "example.com", 22, None);
    assert_eq!(build_ssh_command(&conn), "ssh admin@example.com");
}

#[test]
fn test_build_ssh_command_with_key() {
    let conn = make_connection("admin", "example.com", 22, Some("/path/to/key"));
    assert_eq!(build_ssh_command(&conn), "ssh -i /path/to/key admin@example.com");
}

#[test]
fn test_build_ssh_command_with_port() {
    let conn = make_connection("admin", "example.com", 2222, None);
    assert_eq!(build_ssh_command(&conn), "ssh -p 2222 admin@example.com");
}

#[test]
fn test_build_ssh_command_empty_user() {
    let conn = make_connection("", "example.com", 22, None);
    assert_eq!(build_ssh_command(&conn), "ssh example.com");
}

#[test]
fn test_build_ssh_command_full() {
    let conn = make_connection("admin", "example.com", 2222, Some("/key"));
    assert_eq!(build_ssh_command(&conn), "ssh -i /key -p 2222 admin@example.com");
}

#[test]
fn test_picker_outcome_variants() {
    let cancel = PickerOutcome::Cancel;
    assert_eq!(cancel, PickerOutcome::Cancel);
    let conn = make_connection("u", "h", 22, None);
    let selected = PickerOutcome::Selected(conn.clone());
    assert_eq!(selected, PickerOutcome::Selected(conn));
    assert_ne!(selected, PickerOutcome::Cancel);
}

#[test]
fn ssh_args_carry_key_port_and_target() {
    let conn = make_connection("admin", "example.com", 2222, Some("/key"));
    assert_eq!(build_ssh_args(&conn), vec!["-i", "/key", "-p", "2222", "admin@example.com"]);
}

// ── emit ──

#[test]
fn enter_means_what_the_command_says() {
    let conn = make_connection("admin", "example.com", 22, None);
    assert_eq!(Emit::Insert.resolve(InlineOutcome::Picked(conn.clone())), Action::Insert("test".to_string()));
    assert_eq!(Emit::Execute.resolve(InlineOutcome::Picked(conn.clone())), Action::Execute(vec!["admin@example.com".to_string()]));
    assert_eq!(Emit::Edit.resolve(InlineOutcome::Picked(conn.clone())), Action::Edit(conn));
    assert_eq!(Emit::Execute.resolve(InlineOutcome::Cancelled), Action::Cancelled);
    assert_eq!(frame_stream(false), FrameStream::Tty);
    assert_eq!(frame_stream(true), FrameStream::Stdout);
}

// ── style ──

#[test]
fn visible_window_clamps_and_tracks_selection() {
    assert_eq!(visible_window(0, 0, 8), (0, 0));
    assert_eq!(visible_window(3, 1, 8), (0, 3));
    assert_eq!(visible_window(20, 10, 4), (8, 12));
    assert_eq!(visible_window(20, 0, 4), (0, 4));
    assert_eq!(visible_window(20, 19, 4), (16, 20));
    for (s, e) in (0..20).map(|sel| visible_window(20, sel, 4)) {
        assert!(e - s <= 4);
    }
}

#[test]
fn settle_plain_submit_and_cancel_variants() {
    let submit = settle_plain("Pick Connection", "[staging] web (u@h:22)", false);
    assert_eq!(submit[0], "◇  Pick Connection");
    assert_eq!(submit[1], "│  [staging] web (u@h:22)");
    let cancel = settle_plain("Pick Connection", "", true);
    assert_eq!(cancel[0], "■  Pick Connection");
    assert_eq!(cancel[1], "│  Cancelled");
}

// ── theme and inline ──

#[test]
fn colour_support_follows_no_color_and_term() {
    assert_eq!(ColorSupport::from_env_vars(Some("1"), "xterm-256color", ""), ColorSupport::Monochrome);
    assert_eq!(ColorSupport::from_env_vars(None, "dumb", ""), ColorSupport::Monochrome);
    assert_eq!(ColorSupport::from_env_vars(None, "xterm", "truecolor"), ColorSupport::Truecolor);
    assert_eq!(ColorSupport::from_env_vars(None, "xterm-256color", ""), ColorSupport::Ansi256);
    assert_eq!(ColorSupport::from_env_vars(None, "xterm", ""), ColorSupport::Ansi16);
    assert_eq!(ColorSupport::from_env_vars(Some(""), "xterm", ""), ColorSupport::Ansi16);
}

#[test]
fn a_resize_narrower_than_a_drawn_row_cancels() {
    let live = Live { rows: 5, widest: 50 };
    assert_eq!(plan_resize(live, 40, 30), ResizePlan::CancelAndRestore);
    assert_eq!(plan_resize(live, 80, 30), ResizePlan::Reopen { visible_rows: 8 });
    assert_eq!(plan_resize(live, 80, 7), ResizePlan::Reopen { visible_rows: 3 });
    assert_eq!(plan_resize(live, 80, 4), ResizePlan::CancelAndRestore);
}

// ── runtime ──

#[test]
fn test_run_app_inner_returns_result() {
    let result: io::Result<(bool, Option<Connection>)> = Err(io::Error::other("test"));
    assert!(result.is_err());
}

#[test]
fn test_run_app_inner_returns_ok_tuple() {
    let result: io::Result<(bool, Option<Connection>)> = Ok((true, None));
    assert!(result.is_ok());
    if let Ok((should_connect, conn)) = result {
        assert!(should_connect);
        assert!(conn.is_none());
    }
}

#[test]
fn test_run_app_inner_with_connection() {
    let conn = Connection {
        id: "1".to_string(),
        alias: "test".to_string(),
        host: "example.com".to_string(),
        user: "admin".to_string(),
        port: 22,
        key_path: None,
        folder: None,
    };
    let result: io::Result<(bool, Option<Connection>)> = Ok((true, Some(conn)));
    assert!(result.is_ok());
    if let Ok((should_connect, conn)) = result {
        assert!(should_connect);
        assert!(conn.is_some());
    }
}

#[test]
fn test_io_write_all() {
    let mut stdout = std::io::stdout();
    let result = stdout.write_all(b"test");
    assert!(result.is_ok());
}

#[test]
fn test_io_stdout_exists() {
    let _stdout = std::io::stdout();
}

#[test]
fn test_config_connection_creation() {
    let conn = Connection {
        id: "1".to_string(),
        alias: "test".to_string(),
        host: "example.com".to_string(),
        user: "admin".to_string(),
        port: 22,
        key_path: None,
        folder: None,
    };
    assert_eq!(conn.alias, "test");
    assert_eq!(conn.host, "example.com");
}

#[test]
fn test_config_connection_with_key() {
    let conn = Connection {
        id: "1".to_string(),
        alias: "test".to_string(),
        host: "example.com".to_string(),
        user: "admin".to_string(),
        port: 22,
        key_path: Some("/path/to/key".to_string()),
        folder: None,
    };
    assert!(conn.key_path.is_some());
}

#[test]
fn test_config_connection_with_folder() {
    let conn = Connection {
        id: "1".to_string(),
        alias: "test".to_string(),
        host: "example.com".to_string(),
        user: "admin".to_string(),
        port: 22,
        key_path: None,
        folder: Some("production".to_string()),
    };
    assert!(conn.folder.is_some());
}

#[test]
fn test_stdout_write_operations() {
    let mut stdout = std::io::stdout();
    let _ = stdout.write_all(b"test1");
    let _ = stdout.write(b"test2");
    let _ = stdout.flush();
}

#[test]
fn test_escape_sequences() {
    let mut stdout = std::io::stdout();
    let _ = stdout.write_all(b"\x1b[?1049l");
    let _ = stdout.write_all(b"\x1b[?1000l");
    let _ = stdout.write_all(b"\x1b[?25h");
    let _ = stdout.flush();
}
