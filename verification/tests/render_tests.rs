use sshm::config::Connection;
use sshm::draw::{build_frame_at, fit_line};
use sshm::frame::{build_frame, build_frame_with_flow, build_frame_with_note, Canvas, FrameFlow, FrameMode, FrameState};
use sshm::inline::{
    diff_rows, inline_key, settle_trace, InlineAction, LiveFrame, RowOp, Settle,
};
use sshm::keys::{KeyCode, KeyEvent, KeyModifiers};
use sshm::manage::{ManageState, Phase, Trace};
use sshm::paint::{line_to_ansi, Color, Line, Modifier, Span, Style, Theme};
use sshm::style::{
    bold, corner_line, cyan, dim, green, header_line, highlight, rail, rail_blank, rail_row_spans,
    rail_row_spans_styled, rail_text, underline, STEP_ACTIVE,
};
use sshm::theme::ColorSupport;

fn conn(alias: &str, host: &str, user: &str, port: u16, folder: Option<&str>) -> Connection {
    Connection {
        id: alias.to_string(),
        alias: alias.to_string(),
        host: host.to_string(),
        user: user.to_string(),
        port,
        key_path: None,
        folder: folder.map(|f| f.to_string()),
    }
}

fn line_text(line: &Line) -> String {
    line.spans.iter().map(|s| s.content.as_str()).collect::<String>()
}

fn canvas(width: usize, height: usize) -> Canvas {
    Canvas::new(width, height, ColorSupport::Ansi16)
}

// ───────────────────────────── style builders ─────────────────────────────

#[test]
fn header_line_has_icon_two_spaces_and_message() {
    let line = header_line(STEP_ACTIVE, green(), "Pick Connection");
    assert_eq!(line_text(&line), "◆  Pick Connection");
    assert!(line.spans[2].style.add_modifier.bold);
}

#[test]
fn rail_rows_carry_bar_prefix() {
    let line = rail_text("hello", Style::plain());
    assert_eq!(line_text(&line), "│  hello");
    assert!(line.spans[0].style.add_modifier.dim);
}

#[test]
fn rail_blank_and_corner() {
    assert_eq!(line_text(&rail_blank()), "│");
    assert_eq!(line_text(&corner_line()), "└");
}

#[test]
fn row_spans_current_row_shows_cursor_and_radio_on() {
    let spans = rail_row_spans(true, "web (u@h:22)", None);
    let text: String = spans.iter().map(|s| s.content.as_str()).collect();
    assert_eq!(text, "❯ ● web (u@h:22)");
    assert!(spans[0].style.fg == Some(Color::Cyan));
    assert!(spans[1].style.fg == Some(Color::Green));
    assert!(spans[2].style.add_modifier.underlined);
}

#[test]
fn row_spans_other_row_shows_dim_radio_off_and_hint() {
    let spans = rail_row_spans(false, "db (u@h:22)", Some("dev"));
    let text: String = spans.iter().map(|s| s.content.as_str()).collect();
    assert_eq!(text, "  ○ db (u@h:22) (dev)");
}

#[test]
fn the_palette_helpers_set_one_thing_each() {
    assert_eq!(green().fg, Some(Color::Green));
    assert_eq!(cyan().fg, Some(Color::Cyan));
    assert!(dim().add_modifier.dim && dim().fg.is_none());
    assert!(bold().add_modifier.bold && !bold().add_modifier.dim);
    assert!(underline().add_modifier.underlined);
    assert!(highlight().add_modifier.bold && highlight().fg == Some(Color::Green));
}

#[test]
fn a_rail_keeps_the_spans_it_is_given() {
    let line = rail(vec![Span::text("a", bold()), Span::text("b", dim())]);
    assert_eq!(line_text(&line), "│  ab");
    assert_eq!(line.spans.len(), 4);
    let styled = rail_row_spans_styled(false, vec![Span::text("x", bold())], None);
    assert_eq!(styled.len(), 3);
    assert!(styled[2].style.add_modifier.bold);
}

// ───────────────────────────── the palette ─────────────────────────────

#[test]
fn clack_tokens_are_named_ansi_or_reset() {
    let named_or_reset = |c: Color| !matches!(c, Color::Rgb(..) | Color::Indexed(..));
    let t = Theme::clack();
    for (role, color) in [
        ("bg", t.bg),
        ("fg", t.fg),
        ("fg_bright", t.fg_bright),
        ("fg_muted", t.fg_muted),
        ("accent", t.accent),
        ("border", t.border),
        ("highlight", t.highlight),
        ("success", t.success),
        ("warning", t.warning),
        ("selection_bg", t.selection_bg),
        ("selection_fg", t.selection_fg),
    ] {
        assert!(named_or_reset(color), "role `{role}` is a fixed colour ({color:?})");
    }
}

#[test]
fn truecolor_resolution_is_a_no_op() {
    assert_eq!(Theme::clack().resolve(ColorSupport::Truecolor), Theme::clack());
}

#[test]
fn monochrome_suppresses_every_token() {
    let t = Theme::clack().resolve(ColorSupport::Monochrome);
    assert_eq!(t, Theme::monochrome());
}

#[test]
fn named_colours_survive_the_reduced_modes_unmapped() {
    for support in [ColorSupport::Ansi256, ColorSupport::Ansi16] {
        let t = Theme::clack().resolve(support);
        assert_eq!(t.accent, Color::Cyan, "{support:?} rewrote the accent");
        assert_eq!(t.highlight, Color::Green, "{support:?} rewrote the hit");
        assert_eq!(t.border, Color::DarkGray, "{support:?} rewrote the rail");
    }
}

#[test]
fn ansi_serializer_preserves_what_glyph_snapshots_drop() {
    let line = Line { spans: vec![Span::text("A", Style::fg_bold(Color::Yellow)), Span::text("B", Style::plain())] };
    let s = line_to_ansi(&line);
    assert!(s.contains("\x1b[1;33;49m"), "styled run missing: {s:?}");
    assert!(s.contains('A') && s.contains('B'), "glyphs missing: {s:?}");
}

#[test]
fn ansi_serializer_resets_between_style_runs() {
    let line = Line { spans: vec![Span::text("A", Style::fg(Color::Cyan)), Span::text("B", Style::fg(Color::Green))] };
    let s = line_to_ansi(&line);
    assert_eq!(s.matches("\x1b[0m").count(), 3, "unexpected resets: {s:?}");
}

// ───────────────────────────── fitting ─────────────────────────────

#[test]
fn fit_line_keeps_whole_spans_then_whole_characters() {
    let line = Line { spans: vec![Span::text("abc", bold()), Span::text("defgh", dim()), Span::text("ij", Style::plain())] };
    let fitted = fit_line(line.clone(), 5);
    assert_eq!(fitted.spans.len(), 2);
    assert_eq!(fitted.spans[0].content, "abc");
    assert_eq!(fitted.spans[1].content, "de");
    assert!(fitted.spans[1].style.add_modifier.dim);
    assert_eq!(line_text(&fit_line(line.clone(), 100)), "abcdefghij");
    assert!(fit_line(line, 0).spans.is_empty());
}

#[test]
fn fit_line_never_splits_a_wide_glyph() {
    let line = Line { spans: vec![Span::text("a漢字", Style::plain())] };
    assert_eq!(line_text(&fit_line(line.clone(), 2)), "a");
    assert_eq!(line_text(&fit_line(line, 3)), "a漢");
}

// ───────────────────────────── the frame ─────────────────────────────

#[test]
fn an_empty_set_says_how_to_add_one_and_keeps_its_height() {
    let frame = build_frame(&[], "", 0, FrameMode::Pick, canvas(80, 40));
    assert_eq!(frame.state(), FrameState::Empty);
    assert_eq!(frame.lines().len(), 11);
    assert!(line_text(&frame.lines()[1]).contains("No Connections yet — run sshm manage to add one"));
    assert_eq!(frame.selected_connection_index(), None);
    let manage = build_frame(&[], "", 0, FrameMode::Manage, canvas(80, 40));
    assert!(line_text(&manage.lines()[1]).contains("Ctrl+A to add one"));
}

#[test]
fn a_query_that_matches_nothing_is_quoted_back() {
    let conns = vec![conn("web", "10.0.0.4", "deploy", 22, None)];
    let frame = build_frame(&conns, "zzz", 0, FrameMode::Pick, canvas(80, 40));
    assert_eq!(frame.state(), FrameState::NoMatch);
    assert!(line_text(&frame.lines()[1]).contains("No matches for \"zzz\""));
    assert!(frame.matched().is_empty());
}

#[test]
fn rows_carry_rail_cursor_and_login() {
    let conns = vec![conn("web", "10.0.0.4", "deploy", 22, Some("prod")), conn("db", "10.0.0.5", "root", 2222, None)];
    let frame = build_frame(&conns, "", 1, FrameMode::Pick, canvas(80, 40));
    assert_eq!(frame.state(), FrameState::Rows);
    assert_eq!(frame.matched(), &[0, 1]);
    assert_eq!(frame.selection(), 1);
    assert_eq!(frame.selected_connection_index(), Some(1));
    assert_eq!(line_text(&frame.lines()[1]), "│   [prod] web (deploy@10.0.0.4:22)");
    assert_eq!(line_text(&frame.lines()[2]), "│ ❯ db (root@10.0.0.5:2222)");
    assert_eq!(frame.lines().len(), 11);
    assert_eq!(line_text(frame.lines().last().unwrap()), "└");
}

#[test]
fn the_selection_is_clamped_to_the_rows() {
    let conns = vec![conn("web", "h", "u", 22, None)];
    let frame = build_frame(&conns, "", 9, FrameMode::Pick, canvas(80, 40));
    assert_eq!(frame.selection(), 0);
    assert_eq!(frame.selected_connection_index(), Some(0));
}

#[test]
fn a_hit_is_drawn_in_the_highlight_role() {
    let conns = vec![conn("web", "h", "u", 22, None)];
    let frame = build_frame(&conns, "web", 0, FrameMode::Pick, canvas(80, 40));
    let row = &frame.lines()[1];
    let lit: String = row.spans.iter().filter(|s| s.style.fg == Some(Color::Green)).map(|s| s.content.as_str()).collect();
    assert_eq!(lit, "web");
}

#[test]
fn a_hit_after_a_non_ascii_folder_lights_the_right_characters() {
    let conns = vec![conn("web", "h", "u", 22, Some("prödüction"))];
    let frame = build_frame(&conns, "web", 0, FrameMode::Pick, canvas(80, 40));
    let row = &frame.lines()[1];
    let lit: String = row.spans.iter().filter(|s| s.style.fg == Some(Color::Green)).map(|s| s.content.as_str()).collect();
    assert_eq!(lit, "web");
}

#[test]
fn no_line_is_wider_than_the_canvas_allows() {
    let conns = vec![conn("a-very-long-alias-indeed", "a.really.long.host.example.com", "someone", 22, Some("folder"))];
    let frame = build_frame(&conns, "", 0, FrameMode::Pick, canvas(20, 40));
    for line in frame.lines() {
        assert!(line_text(line).chars().count() <= 19, "too wide: {:?}", line_text(line));
    }
}

#[test]
fn the_update_note_takes_a_row_not_a_line() {
    let conns = vec![conn("web", "h", "u", 22, None)];
    let with = build_frame_with_note(&conns, "", 0, FrameMode::Pick, canvas(80, 40), &FrameFlow::default(), Some("0.2.0"));
    let without = build_frame_with_note(&conns, "", 0, FrameMode::Pick, canvas(80, 40), &FrameFlow::default(), None);
    assert_eq!(with.lines().len(), without.lines().len());
    assert_eq!(line_text(&with.lines()[0]), "◆ update available: v0.2.0 — run sshm update");
}

#[test]
fn a_pick_frame_draws_no_flow() {
    let conns = vec![conn("web", "h", "u", 22, None)];
    let mut state = ManageState::new();
    state.trace = Some(Trace::AddAbandoned);
    let flow = FrameFlow::of(&state);
    let pick = build_frame_with_flow(&conns, "", 0, FrameMode::Pick, canvas(80, 40), &flow);
    let manage = build_frame_with_flow(&conns, "", 0, FrameMode::Manage, canvas(80, 40), &flow);
    assert!(!pick.lines().iter().any(|l| line_text(l).contains("add abandoned")));
    assert!(manage.lines().iter().any(|l| line_text(l).contains("add abandoned — nothing saved")));
    assert_eq!(pick.lines().len(), manage.lines().len());
}

#[test]
fn the_delete_question_is_the_header() {
    let conns = vec![conn("web", "h", "u", 22, Some("prod"))];
    let mut state = ManageState::new();
    state.phase = Phase::ConfirmDelete { target: conns[0].clone() };
    let flow = FrameFlow::of(&state);
    let frame = build_frame_with_flow(&conns, "", 0, FrameMode::Manage, canvas(80, 40), &flow);
    assert_eq!(line_text(&frame.lines()[0]), "◆ Delete [prod] web? (y/N)");
}

#[test]
fn the_import_offer_shows_the_path_under_home() {
    let mut state = ManageState::new();
    state.phase = Phase::ConfirmImport { count: 3, path: "/home/me/.ssh/config".to_string() };
    let flow = FrameFlow::of(&state);
    let frame = build_frame_at(&[], "", 0, FrameMode::Manage, canvas(80, 40), &flow, None, Some("/home/me"));
    let header = line_text(&frame.lines()[0]);
    assert!(header.contains("3 connections"), "{header}");
    assert!(header.contains("~/.ssh/config"), "{header}");
}

#[test]
fn a_short_terminal_still_draws_header_rail_and_corner() {
    let conns = vec![conn("web", "h", "u", 22, None)];
    let frame = build_frame(&conns, "", 0, FrameMode::Pick, canvas(80, 3));
    assert_eq!(frame.lines().len(), 3);
}

#[test]
fn to_ansi_is_one_line_per_frame_line() {
    let frame = build_frame(&[], "", 0, FrameMode::Pick, canvas(80, 40));
    let ansi = frame.to_ansi();
    assert_eq!(ansi.matches('\n').count(), frame.lines().len());
    assert!(!ansi.contains("\x1b[?1049"));
}

// ───────────────────────────── the live frame ─────────────────────────────

fn plain_line(text: &str) -> Line {
    Line { spans: vec![Span::text(text, Style::plain())] }
}

#[test]
fn diff_rows_keeps_rewrites_and_erases_by_position() {
    let prev = vec![plain_line("a"), plain_line("b"), plain_line("c")];
    let next = vec![plain_line("a"), plain_line("x")];
    let ops = diff_rows(&prev, &next);
    assert_eq!(ops.len(), 3);
    assert_eq!(ops[0], RowOp::Keep);
    assert_eq!(ops[1], RowOp::Rewrite(plain_line("x")));
    assert_eq!(ops[2], RowOp::Erase);
    let grown = diff_rows(&next, &prev);
    assert_eq!(grown[2], RowOp::Rewrite(plain_line("c")));
}

#[test]
fn settle_trace_names_the_pick_without_its_folder() {
    let c = conn("web-01", "10.0.0.4", "deploy", 22, Some("prod"));
    let lines = settle_trace(&Settle::Picked(c), canvas(80, 24));
    assert_eq!(lines.len(), 1);
    assert_eq!(line_text(&lines[0]), "◆ picked  web-01  (deploy@10.0.0.4:22)");
    let cancelled = settle_trace(&Settle::Cancelled, canvas(80, 24));
    assert_eq!(line_text(&cancelled[0]), "◆ cancelled");
}

#[test]
fn the_widest_row_is_measured_in_terminal_columns() {
    let mut live = LiveFrame::new();
    let _ = live.open(&vec![plain_line("日本"), plain_line("abc")]);
    assert_eq!(live.geometry().widest, 4, "two wide glyphs take four columns");
}

#[test]
fn the_live_frame_writes_only_what_changed_and_collapses_clean() {
    let mut live = LiveFrame::new();
    let first = vec![plain_line("a"), plain_line("b")];
    let opened = live.open(&first);
    assert!(opened.starts_with("\r\n"));
    assert_eq!(opened.matches("\x1b[2K").count(), 2);
    assert_eq!(live.geometry().rows, 2);
    assert_eq!(live.geometry().widest, 1);

    let second = vec![plain_line("a"), plain_line("bb")];
    let redrawn = live.redraw(&second);
    assert!(redrawn.starts_with("\x1b[2A\r"));
    assert_eq!(redrawn.matches("\x1b[2K").count(), 1, "only the changed row is rewritten");
    assert_eq!(live.geometry().widest, 2);

    let trace = vec![plain_line("done")];
    let collapsed = live.collapse(&trace);
    assert!(collapsed.contains("\x1b[M"), "the row below the trace is deleted");
    assert_eq!(live.geometry().rows, 1);
    assert!(!collapsed.contains("\x1b[?1049"));

    let erased = live.erase();
    assert_eq!(erased, "\x1b[1A\r\x1b[1M");
    assert_eq!(live.geometry().rows, 0);
}

#[test]
fn a_reopen_deletes_the_old_rows_and_paints_the_new() {
    let mut live = LiveFrame::new();
    live.open(&[plain_line("a"), plain_line("b"), plain_line("c")]);
    let bytes = live.reopen(&[plain_line("x")]);
    assert!(bytes.starts_with("\x1b[3A\r\x1b[3M"));
    assert_eq!(live.geometry().rows, 1);
}

fn key(code: KeyCode) -> KeyEvent {
    KeyEvent::plain(code)
}

#[test]
fn keystrokes_move_the_cursor_and_edit_the_query() {
    let mut query = String::from("we");
    let mut sel = 1usize;
    assert_eq!(inline_key(&mut query, &mut sel, key(KeyCode::Up), true), InlineAction::Redraw);
    assert_eq!(sel, 0);
    assert_eq!(inline_key(&mut query, &mut sel, key(KeyCode::Char('k')), true), InlineAction::Redraw);
    assert_eq!(sel, 0, "the cursor never goes below zero");
    assert_eq!(inline_key(&mut query, &mut sel, key(KeyCode::Char('j')), true), InlineAction::Redraw);
    assert_eq!(sel, 1);
    assert_eq!(inline_key(&mut query, &mut sel, key(KeyCode::Char('b')), true), InlineAction::Redraw);
    assert_eq!(query, "web");
    assert_eq!(inline_key(&mut query, &mut sel, key(KeyCode::Backspace), true), InlineAction::Redraw);
    assert_eq!(query, "we");
    assert_eq!(inline_key(&mut query, &mut sel, key(KeyCode::Enter), true), InlineAction::Pick);
    assert_eq!(inline_key(&mut query, &mut sel, key(KeyCode::Enter), false), InlineAction::Redraw);
    assert_eq!(inline_key(&mut query, &mut sel, key(KeyCode::Esc), true), InlineAction::Cancel);
    let ctrl_c = KeyEvent::new(KeyCode::Char('c'), KeyModifiers::control_only());
    assert_eq!(inline_key(&mut query, &mut sel, ctrl_c, true), InlineAction::Cancel);
    let ctrl_x = KeyEvent::new(KeyCode::Char('x'), KeyModifiers::control_only());
    assert_eq!(inline_key(&mut query, &mut sel, ctrl_x, true), InlineAction::Ignore);
    assert_eq!(query, "we");
    assert_eq!(inline_key(&mut query, &mut sel, key(KeyCode::Tab), true), InlineAction::Ignore);
}

#[test]
fn the_cursor_holds_at_the_top_of_its_range() {
    let mut query = String::new();
    let mut sel = usize::MAX;
    assert_eq!(inline_key(&mut query, &mut sel, key(KeyCode::Down), true), InlineAction::Redraw);
    assert_eq!(sel, usize::MAX);
    assert_eq!(inline_key(&mut query, &mut sel, key(KeyCode::Char('j')), true), InlineAction::Redraw);
    assert_eq!(sel, usize::MAX);
    assert_eq!(inline_key(&mut query, &mut sel, key(KeyCode::Up), true), InlineAction::Redraw);
    assert_eq!(sel, usize::MAX - 1);
}

#[test]
fn redrawing_the_same_frame_keeps_every_row() {
    let lines = vec![plain_line("a"), plain_line("b")];
    let ops = diff_rows(&lines, &lines);
    assert!(ops.iter().all(|op| *op == RowOp::Keep));
    let mut live = LiveFrame::new();
    live.open(&lines);
    let again = live.redraw(&lines);
    assert_eq!(again, "\x1b[2A\r\r\n\r\n");
}

#[test]
fn a_fitted_line_reads_as_the_front_of_the_line() {
    let line = Line { spans: vec![Span::text("[prod] ", dim()), Span::text("web", bold()), Span::text(" (u@h:22)", dim())] };
    for width in 0..20 {
        let fitted = fit_line(line.clone(), width);
        assert!(line_text(&line).starts_with(&line_text(&fitted)), "width {width}");
        for (i, span) in fitted.spans.iter().enumerate() {
            assert_eq!(span.style, line.spans[i].style);
        }
    }
}

#[test]
fn every_hit_lies_inside_its_row() {
    let conns = vec![
        conn("web", "10.0.0.4", "deploy", 22, Some("prod")),
        conn("db", "10.0.0.5", "root", 2222, None),
    ];
    for query in ["w", "10", "root", "prod", "d"] {
        for (idx, _score, hits) in sshm::frame::compute_matches(&conns, query) {
            let row = sshm::frame::build_row_text(&conns[idx]);
            assert!(hits.iter().all(|h| *h < row.chars().count()), "{query}: {hits:?} in {row:?}");
        }
    }
}

#[test]
fn the_ranking_is_best_first_then_set_order() {
    let conns = vec![conn("alpha", "h1", "u", 22, None), conn("beta", "h2", "u", 22, None), conn("alphabet", "h3", "u", 22, None)];
    let matches = sshm::frame::compute_matches(&conns, "alpha");
    for pair in matches.windows(2) {
        assert!(pair[0].1 > pair[1].1 || (pair[0].1 == pair[1].1 && pair[0].0 < pair[1].0));
    }
    assert_eq!(sshm::frame::compute_matches(&conns, "alpha"), matches, "the same query ranks the same way");
}

#[test]
fn a_line_that_fits_comes_back_whole() {
    let line = Line { spans: vec![Span::text("ab", bold()), Span::text("日", dim()), Span::text("c", Style::plain())] };
    let fitted = fit_line(line.clone(), 5);
    assert_eq!(fitted, line);
    let cut = fit_line(line, 3);
    assert_eq!(line_text(&cut), "ab");
    assert_eq!(cut.spans.len(), 1);
}

#[test]
fn a_row_spells_its_text_after_the_rail_and_cursor() {
    let conns = vec![conn("web", "10.0.0.4", "deploy", 22, Some("prod")), conn("db", "h", "u", 2222, None)];
    let frame = build_frame(&conns, "e", 0, FrameMode::Pick, canvas(120, 40));
    for (k, idx) in frame.matched().iter().enumerate() {
        let row = &frame.lines()[1 + k];
        let cursor = if k == frame.selection() { "❯" } else { " " };
        let want = format!("│ {cursor} {}", sshm::frame::build_row_text(&conns[*idx]));
        assert_eq!(line_text(row), want);
    }
}
