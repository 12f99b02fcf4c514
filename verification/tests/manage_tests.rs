use sshm::config::{Config, Connection, ImportReport, SshConfigEntry};
use sshm::connections::{add, edit, import, none_if_blank, remove, update_note_from, ConnectionDraft, UpdateNote};
use sshm::form::FormCursor as Cursor;
use sshm::inline::InlineOutcome;
use sshm::keys::{KeyCode, KeyEvent, KeyModifiers};
use sshm::manage::{
    field_problems, map_rows, refusal_line, settle_add, settle_delete, settle_edit, settle_import,
    settled_draft, step, AddField, AddSequence, DeleteOutcome, EditOutcome, EditSequence, Effect,
    FormCursor, ImportOutcome, ManageState, Phase, RowGlyph, Trace,
};
use sshm::update::{UpdateResult, CURRENT_VERSION};

fn conn(id: &str, alias: &str) -> Connection {
    Connection {
        id: id.to_string(),
        alias: alias.to_string(),
        host: format!("{alias}.example.com"),
        user: "deploy".to_string(),
        port: 22,
        key_path: None,
        folder: None,
    }
}

fn key(code: KeyCode) -> KeyEvent {
    KeyEvent::plain(code)
}

fn ctrl(c: char) -> KeyEvent {
    KeyEvent::new(KeyCode::Char(c), KeyModifiers::control_only())
}

fn typed(state: ManageState, text: &str) -> ManageState {
    let mut s = state;
    for c in text.chars() {
        s = step(&s, key(KeyCode::Char(c)), None).state;
    }
    s
}

// ── the form's fields ──

#[test]
fn fields_walk_in_map_order() {
    assert_eq!(AddField::Alias.next(), Some(AddField::Host));
    assert_eq!(AddField::Key.next(), Some(AddField::Folder));
    assert_eq!(AddField::Folder.next(), None);
    assert_eq!(AddField::Port.label(), "Port");
    assert_eq!(AddField::ORDER.len(), 6);
}

#[test]
fn the_port_settles_to_its_default_or_is_refused() {
    let mut d = ConnectionDraft { alias: " web ".to_string(), host: "h".to_string(), ..Default::default() };
    let s = settled_draft(&d).unwrap();
    assert_eq!(s.alias, "web");
    assert_eq!(s.port, "22");
    d.port = "99999".to_string();
    assert!(settled_draft(&d).is_none());
    d.port = "0".to_string();
    assert!(settled_draft(&d).is_none());
    d.port = "+0080".to_string();
    assert_eq!(settled_draft(&d).unwrap().port, "80");
}

#[test]
fn every_problem_is_listed_in_map_order() {
    let d = ConnectionDraft { port: "abc".to_string(), ..Default::default() };
    let problems = field_problems(&d);
    let labels: Vec<&str> = problems.iter().map(|p| p.0).collect();
    assert_eq!(labels, vec!["Alias", "Host", "Port"]);
    assert_eq!(problems[0].1, "alias is required");
    assert_eq!(
        refusal_line(&problems, false),
        "alias is required · host is required · port must be 1–65535 (e.g. 22)"
    );
    assert_eq!(refusal_line(&[], true), "nothing to save");
}

#[test]
fn the_glyphs_say_what_each_row_is() {
    let d = ConnectionDraft { alias: "web".to_string(), port: "x".to_string(), ..Default::default() };
    let rows = map_rows(&d, FormCursor::Field(AddField::Host), None);
    assert_eq!(rows.len(), 6);
    assert_eq!(rows[0].glyph, RowGlyph::Valid);
    assert_eq!(rows[1].glyph, RowGlyph::Needed);
    assert!(rows[1].focused);
    assert_eq!(rows[2].glyph, RowGlyph::Empty);
    assert_eq!(rows[3].glyph, RowGlyph::Invalid);
    let base = ConnectionDraft { alias: "old".to_string(), ..d.clone() };
    let rows = map_rows(&d, FormCursor::Submit, Some(&base));
    assert_eq!(rows[0].glyph, RowGlyph::Changed);
    assert_eq!(RowGlyph::Changed.char(), '●');
}

#[test]
fn tab_and_shift_tab_wrap_while_the_arrows_stop() {
    let first = Cursor::Field(AddField::Alias);
    assert_eq!(first.prev(), Cursor::Submit);
    assert_eq!(Cursor::Submit.next(), first);
    assert_eq!(first.up(), first);
    assert_eq!(Cursor::Submit.down(), Cursor::Submit);
    assert_eq!(Cursor::Submit.index(), 6);
    assert!(Cursor::Submit.is_submit());
}

// ── one keystroke ──

#[test]
fn a_printable_on_the_list_goes_to_the_filter() {
    let s = typed(ManageState::new(), "axe");
    assert_eq!(s.query, "axe");
    assert_eq!(s.phase, Phase::List);
    let r = step(&s, key(KeyCode::Backspace), None);
    assert_eq!(r.state.query, "ax");
    assert!(r.effects.is_empty());
}

#[test]
fn a_shifted_printable_on_the_list_goes_to_the_filter_too() {
    let shifted = KeyEvent::new(KeyCode::Char('J'), KeyModifiers::shift_only());
    let r = step(&typed(ManageState::new(), "a"), shifted, None);
    assert!(r.effects.is_empty());
    assert_eq!(r.state.query, "aJ");
    assert_eq!(r.state.phase, Phase::List);
    let held = step(&r.state, KeyEvent::new(KeyCode::Char('j'), KeyModifiers::control_only()), None);
    assert_eq!(held.state.query, "aJ");
}

#[test]
fn a_shifted_printable_on_the_confirm_declines_and_filters() {
    let web = conn("1", "web");
    let s = step(&ManageState::new(), ctrl('x'), Some(&web)).state;
    let r = step(&s, KeyEvent::new(KeyCode::Char('W'), KeyModifiers::shift_only()), None);
    assert!(r.effects.is_empty());
    assert_eq!(r.state.query, "W");
    assert_eq!(r.state.trace, Some(Trace::Declined { connection: web }));
}

#[test]
fn ctrl_x_captures_the_selection_and_y_deletes_it() {
    let web = conn("1", "web");
    let db = conn("2", "db");
    let s = step(&ManageState::new(), ctrl('x'), Some(&web)).state;
    assert_eq!(s.phase, Phase::ConfirmDelete { target: web.clone() });
    let moved = step(&s, key(KeyCode::Down), Some(&db)).state;
    let r = step(&moved, key(KeyCode::Char('Y')), Some(&db));
    assert_eq!(r.effects, vec![Effect::Delete { target: web }]);
    assert_eq!(r.state.phase, Phase::List);
}

#[test]
fn a_printable_on_the_confirm_declines_and_filters() {
    let web = conn("1", "web");
    let s = step(&ManageState::new(), ctrl('x'), Some(&web)).state;
    let r = step(&s, key(KeyCode::Char('w')), None);
    assert!(r.effects.is_empty());
    assert_eq!(r.state.query, "w");
    assert_eq!(r.state.trace, Some(Trace::Declined { connection: web }));
}

#[test]
fn ctrl_c_cancels_from_anywhere() {
    let r = step(&ManageState::new(), ctrl('c'), None);
    assert_eq!(r.effects, vec![Effect::Exit(InlineOutcome::Cancelled)]);
    let add = step(&ManageState::new(), ctrl('a'), None).state;
    let r = step(&add, ctrl('C'), None);
    assert_eq!(r.effects, vec![Effect::Exit(InlineOutcome::Cancelled)]);
}

#[test]
fn the_add_form_writes_only_from_its_submit_row() {
    let mut s = step(&ManageState::new(), ctrl('a'), None).state;
    s = typed(s, "web");
    s = step(&s, key(KeyCode::Enter), None).state;
    s = typed(s, "web.example.com");
    for _ in 0..5 {
        let r = step(&s, key(KeyCode::Tab), None);
        assert!(r.effects.is_empty());
        s = r.state;
    }
    match &s.phase {
        Phase::Add(q) => assert!(q.cursor.is_submit() && q.ready()),
        other => panic!("expected the add form, got {other:?}"),
    }
    let r = step(&s, key(KeyCode::Enter), None);
    match &r.effects[..] {
        [Effect::Add { draft }] => {
            assert_eq!(draft.alias, "web");
            assert_eq!(draft.host, "web.example.com");
            assert_eq!(draft.port, "22");
        },
        other => panic!("expected one add, got {other:?}"),
    }
}

#[test]
fn an_unready_add_is_refused_with_every_problem() {
    let s = step(&ManageState::new(), ctrl('a'), None).state;
    let s = step(&s, key(KeyCode::BackTab), None).state;
    let r = step(&s, key(KeyCode::Enter), None);
    assert!(r.effects.is_empty());
    match &r.state.phase {
        Phase::Add(q) => assert_eq!(q.error.as_deref(), Some("alias is required · host is required")),
        other => panic!("expected the add form, got {other:?}"),
    }
}

#[test]
fn esc_from_the_top_row_abandons_the_add() {
    let s = step(&ManageState::new(), ctrl('a'), None).state;
    let r = step(&s, key(KeyCode::Esc), None);
    assert_eq!(r.state.phase, Phase::List);
    assert_eq!(r.state.trace, Some(Trace::AddAbandoned));
}

#[test]
fn an_edit_updates_its_captured_target() {
    let web = conn("1", "web");
    let mut s = step(&ManageState::new(), ctrl('e'), Some(&web)).state;
    match &s.phase {
        Phase::Edit(e) => assert_eq!(e.draft.alias, "web"),
        other => panic!("expected the edit form, got {other:?}"),
    }
    s = typed(s, "2");
    s = step(&s, key(KeyCode::BackTab), Some(&conn("9", "other"))).state;
    let r = step(&s, key(KeyCode::Enter), None);
    match &r.effects[..] {
        [Effect::Update { target, draft }] => {
            assert_eq!(target, &web);
            assert_eq!(draft.alias, "web2");
        },
        other => panic!("expected one update, got {other:?}"),
    }
}

#[test]
fn an_unchanged_edit_has_nothing_to_save() {
    let web = conn("1", "web");
    let s = step(&ManageState::new(), ctrl('e'), Some(&web)).state;
    let s = step(&s, key(KeyCode::BackTab), None).state;
    let r = step(&s, key(KeyCode::Enter), None);
    assert!(r.effects.is_empty());
    match &r.state.phase {
        Phase::Edit(e) => assert_eq!(e.error.as_deref(), Some("nothing to save")),
        other => panic!("expected the edit form, got {other:?}"),
    }
}

#[test]
fn the_import_offer_answers_y_with_its_path() {
    let s = ManageState { phase: Phase::ConfirmImport { count: 2, path: "/home/u/.ssh/config".to_string() }, ..ManageState::new() };
    let r = step(&s, key(KeyCode::Char('y')), None);
    assert_eq!(r.effects, vec![Effect::Import { path: "/home/u/.ssh/config".to_string() }]);
    let r = step(&s, key(KeyCode::Esc), None);
    assert_eq!(r.state.trace, Some(Trace::ImportDeclined));
}

// ── what the store answered ──

#[test]
fn only_a_real_removal_earns_deleted() {
    let web = conn("1", "web");
    let s = ManageState::new();
    let ok = settle_delete(&s, &web, DeleteOutcome::from_remove(Ok(Some(web.clone())))).unwrap();
    assert_eq!(ok.trace, Some(Trace::Deleted { connection: web.clone() }));
    let absent = settle_delete(&s, &web, DeleteOutcome::from_remove(Ok(None))).unwrap();
    assert_eq!(absent.trace, Some(Trace::DeleteFailed { connection: web.clone() }));
    assert_eq!(settle_delete(&s, &web, DeleteOutcome::from_remove(Err("io".to_string()))), Err("io".to_string()));
}

#[test]
fn an_added_connection_is_selected_with_the_filter_cleared() {
    let list = vec![conn("1", "a"), conn("2", "b")];
    let s = ManageState::with_query("zz");
    let r = settle_add(&s, &list, Ok(list[1].clone())).unwrap();
    assert_eq!(r.selection, 1);
    assert_eq!(r.query, "");
    assert_eq!(r.trace, Some(Trace::Added { connection: list[1].clone() }));
    assert_eq!(settle_add(&s, &list, Err("no".to_string())), Err("no".to_string()));
}

#[test]
fn an_edit_of_a_vanished_connection_says_so() {
    let web = conn("1", "web");
    let s = ManageState::new();
    let r = settle_edit(&s, &[], &web, EditOutcome::from_update(Ok(None))).unwrap();
    assert_eq!(r.trace, Some(Trace::EditFailed { connection: web.clone() }));
    let r = settle_edit(&s, &[web.clone()], &web, EditOutcome::from_update(Ok(Some(web.clone())))).unwrap();
    assert_eq!(r.trace, Some(Trace::Edited { connection: web }));
}

#[test]
fn an_import_reports_what_the_store_wrote() {
    let outcome = ImportOutcome::from_report(Ok(ImportReport { imported: 3, skipped: 1 }));
    assert_eq!(outcome, ImportOutcome::Imported { imported: 3, failed: 1 });
    let r = settle_import(&ManageState::with_query("x"), outcome).unwrap();
    assert_eq!(r.trace, Some(Trace::Imported { imported: 3, failed: 1 }));
    assert_eq!(r.query, "");
}

#[test]
fn sequences_start_blank_or_seeded() {
    let a = AddSequence::start();
    assert_eq!(a.cursor, FormCursor::Field(AddField::Alias));
    assert!(a.draft.alias.is_empty());
    assert!(!a.ready());
    let e = EditSequence::start(conn("1", "web"));
    assert_eq!(e.draft, e.baseline);
    assert!(e.changed().is_empty());
    assert!(!e.ready());
    assert_eq!(AddField::Port.current(&conn("1", "web")), "22");
}

// ── the Connection set ──

#[test]
fn add_then_remove_restores_the_set() {
    let mut config = Config::new();
    config.add_connection(conn("1", "a"));
    let draft = ConnectionDraft { alias: "b".to_string(), host: "h".to_string(), port: "2222".to_string(), ..Default::default() };
    let added = add(&mut config, &draft);
    assert_eq!(added.port, 2222);
    assert_eq!(config.connections.len(), 2);
    let removed = remove(&mut config, &added.id).unwrap();
    assert_eq!(removed, added);
    assert_eq!(config.connections, vec![conn("1", "a")]);
    assert!(remove(&mut config, "missing").is_none());
}

#[test]
fn an_edit_keeps_the_id() {
    let mut config = Config::new();
    config.add_connection(conn("1", "a"));
    let draft = ConnectionDraft { alias: "z".to_string(), host: "h".to_string(), port: "x".to_string(), key_path: "".to_string(), ..Default::default() };
    let edited = edit(&mut config, "1", &draft);
    assert_eq!(edited.id, "1");
    assert_eq!(edited.port, 22);
    assert_eq!(edited.key_path, None);
    assert_eq!(config.connections[0].alias, "z");
}

#[test]
fn importing_twice_adds_nothing_the_second_time() {
    let entries = || {
        vec![SshConfigEntry {
            host: "web".to_string(),
            user: Some("u".to_string()),
            port: Some(2200),
            key_file: None,
            hostname: Some("10.0.0.1".to_string()),
        }]
    };
    let mut config = Config::new();
    assert_eq!(import(&mut config, entries()), 1);
    assert_eq!(config.connections[0].alias, "web");
    assert_eq!(config.connections[0].host, "10.0.0.1");
    assert_eq!(config.connections[0].port, 2200);
    assert_eq!(import(&mut config, entries()), 0);
    assert_eq!(config.connections.len(), 1);
}

#[test]
fn blank_optionals_are_absent() {
    assert_eq!(none_if_blank(""), None);
    assert_eq!(none_if_blank("k"), Some("k".to_string()));
}

#[test]
fn the_update_note_names_both_versions() {
    match update_note_from(UpdateResult::UpdateAvailable { version: "9.9.9".to_string() }) {
        UpdateNote::Available(info) => {
            assert_eq!(info.new_version, "9.9.9");
            assert_eq!(info.current_version, CURRENT_VERSION);
        },
        other => panic!("expected a note, got {other:?}"),
    }
    assert!(matches!(update_note_from(UpdateResult::NoUpdate), UpdateNote::Nothing));
    assert!(matches!(update_note_from(UpdateResult::Error("x".to_string())), UpdateNote::Failed(m) if m == "x"));
}

#[test]
fn settling_a_settled_draft_changes_nothing() {
    let d = ConnectionDraft {
        alias: " web ".to_string(),
        host: "\th.example.com ".to_string(),
        user: " deploy".to_string(),
        port: " 0022 ".to_string(),
        key_path: "  ".to_string(),
        folder: " prod ".to_string(),
    };
    let once = settled_draft(&d).unwrap();
    assert_eq!(once.port, "22");
    assert_eq!(once.alias, "web");
    assert_eq!(once.key_path, "");
    let twice = settled_draft(&once).unwrap();
    assert_eq!(twice, once);
}
