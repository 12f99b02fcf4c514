use sshm::cli::{emit_of, generate_init_bash_script, generate_init_zsh_script, Route};
use sshm::emit::Emit;
use sshm::config::{Config, Connection, SshConfigEntry};
use sshm::connections::import_report;
use sshm::keys::{KeyCode, KeyEvent, KeyModifiers};
use sshm::picker::{picker_key, PickerStep};
use sshm::ssh::build_ssh_args;
use sshm::update::{collapse, get_platform_asset_name};

fn zsh() -> String {
    generate_init_zsh_script(false, None)
}

fn bash() -> String {
    generate_init_bash_script(false, None)
}

fn sample(port: u16, key_path: Option<&str>) -> Connection {
    Connection {
        id: "1".to_string(),
        alias: "test".to_string(),
        host: "example.com".to_string(),
        user: "admin".to_string(),
        port,
        key_path: key_path.map(|k| k.to_string()),
        folder: None,
    }
}

#[test]
fn test_init_zsh_contains_sshm_pick() {
    assert!(zsh().contains("sshm pick"));
}

#[test]
fn test_init_zsh_seeds_query_buffer() {
    assert!(zsh().contains("--query \"$BUFFER\""));
}

#[test]
fn test_init_zsh_replaces_buffer_with_cursor_to_end() {
    let script = zsh();
    assert!(script.contains("BUFFER=\"$result\""));
    assert!(script.contains("CURSOR=${#BUFFER}"));
}

#[test]
fn test_init_zsh_calls_reset_prompt() {
    assert!(zsh().contains("zle reset-prompt"));
}

#[test]
fn test_init_zsh_restores_buffer_on_cancel() {
    assert!(zsh().contains("BUFFER=\"$saved_buffer\""));
}

#[test]
fn test_init_zsh_has_completion_trigger_function() {
    assert!(zsh().contains("_sshm_completion_picker"));
}

#[test]
fn test_init_zsh_completion_checks_lbuffer_for_doublestar() {
    assert!(zsh().contains("LBUFFER == *'**'"));
}

#[test]
fn test_init_zsh_completion_strips_doublestar() {
    assert!(zsh().contains("${LBUFFER%'**'}"));
}

#[test]
fn test_init_zsh_completion_falls_through_to_expand_or_complete() {
    let script = zsh();
    assert!(script.contains("zle expand-or-complete"));
    assert!(!script.contains("zle .expand-or-complete"));
}

#[test]
fn test_init_zsh_completion_saves_buffer_before_stripping() {
    let script = zsh();
    let saved_before = script.find("local saved_buffer=\"$BUFFER\"").expect("must save buffer");
    let strip_pos = script.find("local stripped=\"${LBUFFER%'**'}\"").expect("must strip **");
    assert!(saved_before < strip_pos, "saved_buffer must be captured before stripping **");
}

#[test]
fn test_init_zsh_completion_registers_widget() {
    assert!(zsh().contains("zle -N _sshm_completion_picker"));
}

#[test]
fn test_init_zsh_completion_replaces_buffer() {
    let script = zsh();
    assert!(script.contains("BUFFER=\"$result\""));
    assert!(script.contains("CURSOR=${#BUFFER}"));
}

#[test]
fn test_init_bash_contains_sshm_pick() {
    assert!(bash().contains("sshm pick"));
}

#[test]
fn test_init_bash_seeds_query_readline_line() {
    assert!(bash().contains("--query \"$READLINE_LINE\""));
}

#[test]
fn test_init_bash_splices_into_readline_line_with_cursor_to_end() {
    let script = bash();
    assert!(script.contains("READLINE_LINE=\"$result\""));
    assert!(script.contains(r"READLINE_POINT=${#READLINE_LINE}"));
}

#[test]
fn test_init_bash_leaves_readline_line_untouched_on_nonzero_exit() {
    let script = bash();
    assert!(script.contains("if [[ $exit_code -ne 0 ]]; then"));
    assert!(script.contains("return"));
    assert!(script.matches("return").count() >= 1);
}

#[test]
fn test_cleanup_and_exit_builds_ssh_args() {
    assert!(!build_ssh_args(&sample(22, None)).is_empty());
}

#[test]
fn test_cleanup_and_exit_with_key_path() {
    assert!(build_ssh_args(&sample(22, Some("/path/to/key"))).iter().any(|a| a == "-i"));
}

#[test]
fn test_cleanup_and_exit_with_non_default_port() {
    assert!(build_ssh_args(&sample(2222, None)).iter().any(|a| a == "-p"));
}

#[test]
fn test_ssh_build_args_with_key() {
    assert!(build_ssh_args(&sample(22, Some("/path/to/key"))).iter().any(|a| a == "-i"));
}

#[test]
fn test_ssh_build_args_with_port() {
    assert!(build_ssh_args(&sample(2222, None)).iter().any(|a| a == "-p"));
}

#[test]
fn test_ssh_build_args_without_key_or_port() {
    let args = build_ssh_args(&sample(22, None));
    assert!(!args.iter().any(|a| a == "-i"));
    assert!(!args.iter().any(|a| a == "-p"));
}

#[test]
fn test_get_platform_asset_name_linux() {
    let result = get_platform_asset_name("linux", "x86_64");
    assert!(result.is_ok());
    assert!(!result.unwrap().is_empty());
}

#[test]
fn test_platform_asset_name_format() {
    let asset = get_platform_asset_name("macos", "aarch64").unwrap();
    assert!(asset.chars().all(|c| c.is_alphanumeric() || c == '-' || c == '_'));
}

#[test]
fn test_get_platform_asset_name_result_type() {
    let result = get_platform_asset_name("freebsd", "x86_64");
    assert!(result.is_ok() || result.is_err());
    assert!(result.is_err());
}

#[test]
fn test_get_platform_asset_name_unsupported() {
    assert_eq!(
        get_platform_asset_name("plan9", "mips"),
        Err("Unsupported platform: plan9 mips".to_string())
    );
    assert!(get_platform_asset_name("windows", "x86_64").is_ok());
}

#[test]
fn test_get_platform_asset_name_basic() {
    let asset = get_platform_asset_name("macos", "x86_64").unwrap();
    assert_eq!(asset, "x86_64-apple-darwin");
}

#[test]
fn test_get_platform_asset_name_returns_valid_format() {
    for (os, arch) in [("linux", "x86_64"), ("macos", "x86_64"), ("macos", "aarch64"), ("windows", "x86_64")] {
        let asset = get_platform_asset_name(os, arch).unwrap();
        assert!(!asset.is_empty());
        assert!(asset.chars().all(|c| c.is_alphanumeric() || c == '-' || c == '_'));
    }
}

#[test]
fn a_path_collapses_dot_and_dot_dot_by_name() {
    assert_eq!(collapse("/usr/local/bin/../lib/sshm"), "/usr/local/lib/sshm");
    assert_eq!(collapse("/opt/./sshm"), "/opt/sshm");
    assert_eq!(collapse("a//b/"), "a/b");
    assert_eq!(collapse("/.."), "/..");
    assert_eq!(collapse("../x"), "../x");
    assert_eq!(collapse("a/../.."), "..");
    assert_eq!(collapse("/"), "/");
}

#[test]
fn an_import_report_counts_what_was_left_out() {
    let mut config = Config::new();
    let entry = |host: &str| SshConfigEntry {
        host: host.to_string(),
        user: Some("me".to_string()),
        port: None,
        key_file: None,
        hostname: None,
    };
    let report = import_report(&mut config, vec![entry("web"), entry("db")]);
    assert_eq!(report.imported, 2);
    assert_eq!(report.skipped, 0);
    let again = import_report(&mut config, vec![entry("web"), entry("db"), entry("cache")]);
    assert_eq!(again.imported, 1);
    assert_eq!(again.skipped, 2);
    assert_eq!(again.failed(), 2);
    assert_eq!(config.connections.len(), 3);
}

fn key(code: KeyCode) -> KeyEvent {
    KeyEvent::plain(code)
}

#[test]
fn the_picker_moves_within_its_rows_and_cancels_on_esc_or_ctrl_c() {
    assert_eq!(picker_key(0, 3, key(KeyCode::Up)), PickerStep::Stay(0));
    assert_eq!(picker_key(0, 3, key(KeyCode::Down)), PickerStep::Stay(1));
    assert_eq!(picker_key(2, 3, key(KeyCode::Down)), PickerStep::Stay(2));
    assert_eq!(picker_key(1, 3, key(KeyCode::Enter)), PickerStep::Select(1));
    assert_eq!(picker_key(1, 3, key(KeyCode::Esc)), PickerStep::Cancel);
    assert_eq!(picker_key(1, 3, KeyEvent::new(KeyCode::Char('c'), KeyModifiers::control_only())), PickerStep::Cancel);
    assert_eq!(picker_key(1, 3, KeyEvent::new(KeyCode::Esc, KeyModifiers::control_only())), PickerStep::Cancel);
    assert_eq!(picker_key(1, 3, key(KeyCode::Char('c'))), PickerStep::Stay(1));
}

#[test]
fn a_picker_row_names_alias_and_host() {
    let c = sample(22, None);
    assert_eq!(sshm::picker::picker_row(&c), "test (example.com)");
}

#[test]
fn each_frame_route_opens_its_own_emit() {
    assert_eq!(emit_of(Route::Connect), Some(Emit::Execute));
    assert_eq!(emit_of(Route::Pick), Some(Emit::Insert));
    assert_eq!(emit_of(Route::Manage), Some(Emit::Edit));
    assert_eq!(emit_of(Route::Add), None);
    assert_eq!(emit_of(Route::CheckUpdate), None);
}
