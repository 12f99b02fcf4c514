use sshm::config::Connection;
use sshm::frame::{
    build_row_text, compute_field_offsets, compute_matches, display_import_path, empty_message,
    fit_hints, fit_hints_with, fit_visible_rows, frame_state, physical_rows, visible_window, Canvas,
    FrameMode, FrameState,
};
use sshm::theme::ColorSupport;

fn conn(alias: &str, host: &str, user: &str, port: u16, folder: Option<&str>) -> Connection {
    Connection {
        id: alias.to_string(),
        alias: alias.to_string(),
        host: host.to_string(),
        user: user.to_string(),
        port,
        key_path: None,
        folder: folder.map(|f| f.to_string()),
    }
}

#[test]
fn a_row_reads_folder_alias_and_login() {
    assert_eq!(build_row_text(&conn("web", "h", "u", 22, None)), "web (u@h:22)");
    assert_eq!(build_row_text(&conn("web", "h", "u", 2222, Some("prod"))), "[prod] web (u@h:2222)");
    assert_eq!(build_row_text(&conn("web", "h", "u", 22, Some(""))), "web (u@h:22)");
}

#[test]
fn field_offsets_point_into_the_row() {
    let c = conn("web", "host", "me", 22, Some("prod"));
    let row = build_row_text(&c);
    for (name, start, end) in compute_field_offsets(&c) {
        let text: String = row.chars().skip(start).take(end - start).collect();
        match name {
            "folder" => assert_eq!(text, "prod"),
            "alias" => assert_eq!(text, "web"),
            "user" => assert_eq!(text, "me"),
            "host" => assert_eq!(text, "host"),
            "port" => assert_eq!(text, "22"),
            other => panic!("unexpected field {other}"),
        }
    }
    assert_eq!(compute_field_offsets(&conn("a", "h", "u", 22, None)).len(), 4);
}

#[test]
fn field_offsets_count_characters_not_bytes() {
    let c = conn("wéb", "hôst", "mé", 2222, Some("prödüction"));
    let row = build_row_text(&c);
    let offsets = compute_field_offsets(&c);
    assert_eq!(offsets[0], ("folder", 1, 11));
    assert_eq!(offsets[1], ("alias", 13, 16));
    for (name, start, end) in offsets {
        let text: String = row.chars().skip(start).take(end - start).collect();
        match name {
            "folder" => assert_eq!(text, "prödüction"),
            "alias" => assert_eq!(text, "wéb"),
            "user" => assert_eq!(text, "mé"),
            "host" => assert_eq!(text, "hôst"),
            "port" => assert_eq!(text, "2222"),
            other => panic!("unexpected field {other}"),
        }
    }
}

#[test]
fn an_empty_query_keeps_every_connection_in_order() {
    let cs = vec![conn("b", "h", "u", 22, None), conn("a", "h", "u", 22, None)];
    let m = compute_matches(&cs, "");
    assert_eq!(m, vec![(0, 0, vec![]), (1, 0, vec![])]);
}

#[test]
fn matches_come_best_first_and_drop_the_rest() {
    let cs = vec![
        conn("db", "db.internal", "root", 22, None),
        conn("web-01", "10.0.0.1", "deploy", 22, None),
        conn("web", "web.example.com", "deploy", 22, None),
    ];
    let m = compute_matches(&cs, "web");
    let idx: Vec<usize> = m.iter().map(|r| r.0).collect();
    assert!(!idx.contains(&0));
    assert!(idx.contains(&1) && idx.contains(&2));
    for w in m.windows(2) {
        assert!(w[0].1 > w[1].1 || (w[0].1 == w[1].1 && w[0].0 < w[1].0));
    }
    let row = build_row_text(&cs[2]);
    let best = m.iter().find(|r| r.0 == 2).unwrap();
    let highlighted: String = best.2.iter().map(|&i| row.as_bytes()[i] as char).collect();
    assert_eq!(highlighted, "web");
}

#[test]
fn the_frame_fits_the_terminal() {
    assert_eq!(fit_visible_rows(30), Some(8));
    assert_eq!(fit_visible_rows(6), Some(2));
    assert_eq!(fit_visible_rows(4), None);
    assert_eq!(visible_window(10, 9, 4), 6..10);
    assert_eq!(visible_window(0, 3, 4), 0..0);
    assert_eq!(physical_rows(81, 80), 2);
    assert_eq!(physical_rows(0, 80), 1);
    let canvas = Canvas::new(80, 24, ColorSupport::Ansi16);
    assert_eq!(canvas.visible_rows(), Some(8));
}

#[test]
fn the_frame_state_follows_its_rows() {
    assert_eq!(frame_state(0, 0), FrameState::Empty);
    assert_eq!(frame_state(3, 0), FrameState::NoMatch);
    assert_eq!(frame_state(3, 1), FrameState::Rows);
}

#[test]
fn hints_survive_in_order_of_importance() {
    assert_eq!(fit_hints(&["↑↓ move", "enter pick", "esc quit"], 20), "↑↓ move | enter pick");
    assert_eq!(fit_hints_with(&["a", "b"], 5, " · "), "a · b");
}

#[test]
fn the_import_path_is_shown_under_home() {
    assert_eq!(display_import_path("/home/u/.ssh/config", Some("/home/u")), "~/.ssh/config");
    assert_eq!(display_import_path("/home/u", Some("/home/u")), "~");
    assert_eq!(display_import_path("/home/uv/.ssh/config", Some("/home/u")), "/home/uv/.ssh/config");
    assert_eq!(display_import_path("/etc/ssh/config", None), "/etc/ssh/config");
}

#[test]
fn the_empty_frame_says_how_to_add_one() {
    assert!(empty_message(FrameMode::Manage).contains("Ctrl+A"));
    assert!(empty_message(FrameMode::Pick).contains("sshm manage"));
}

#[test]
fn a_connection_is_matched_once_however_many_fields_hit() {
    let cs = vec![
        conn("web", "web.example.com", "web", 22, Some("web")),
        conn("db", "db.example.com", "dba", 22, None),
        conn("webdb", "h", "u", 22, None),
    ];
    let m = compute_matches(&cs, "web");
    let mut seen: Vec<usize> = m.iter().map(|x| x.0).collect();
    seen.sort();
    seen.dedup();
    assert_eq!(seen.len(), m.len());
    assert!(m.iter().all(|x| x.0 < cs.len()));
}

#[test]
fn hints_drop_from_the_end_and_the_kept_ones_are_the_longest_that_fit() {
    let hints = ["abc", "de", "f"];
    assert_eq!(fit_hints(&hints, 8), "abc | de");
    assert_eq!(fit_hints(&hints, 11), "abc | de");
    assert_eq!(fit_hints(&hints, 12), "abc | de | f");
    assert_eq!(fit_hints(&hints, 2), "");
    assert_eq!(fit_hints_with(&["a", "bb"], 4, "+"), "a+bb");
}
