//! Laying out rows, moving the viewport, building the text of the
//! grid, looking up a terminal's entities, and building writes.
use q_term::encode::term_writes_to_ansi;
use q_term::events::TermViewportMsg;
use q_term::io::{PendingTermInput, PendingTermScroll, TermOutputChannel, TermStdIn, TermWrite, VtWriteMsg};
use q_term::process::ProcessName;
use q_term::reflow::{apply_reflow, flow_line, RowPlacement};
use q_term::style::{VtCell, VtCellStyle, VtColor};
use q_term::systems::{apply_scroll, can_draw, dedup_targets, drain_pending, ingress_cap, span_reset};
use q_term::term::{
    VtCursor, VtLineTarget, VtModes, VtScrollPos, VtSize, VtTabStop, VtViewport,
};
use q_term::terminfo::TermInfo;
use q_term::ui::{refresh_ui, TextRun, ViewportEntry};
use q_term::EntityId;
use std::collections::VecDeque;

const TERM: EntityId = EntityId(1);

fn info(line_target: Vec<EntityId>, viewport: Vec<EntityId>) -> TermInfo {
    TermInfo {
        id: TERM,
        cursor: VtCursor::default(),
        modes: VtModes::default(),
        line_target: VtLineTarget(line_target),
        viewport: VtViewport(viewport),
        size: VtSize { rows: 24, cols: 80 },
        ready: true,
        scroll_pos: VtScrollPos(0),
        tab_stop: VtTabStop::default(),
        fg_process: None,
    }
}

#[test]
fn flow_line_offsets() {
    assert_eq!(flow_line(5, 3, 12), vec![0, 5, 10]);
    assert_eq!(flow_line(5, 3, 0), vec![0], "an empty line still takes a row");
    assert_eq!(flow_line(5, 3, 5), vec![0]);
    assert_eq!(flow_line(5, 3, 6), vec![0, 5]);
    assert!(flow_line(0, 3, 10).is_empty());
    assert!(flow_line(5, 0, 10).is_empty());
}

#[test]
fn reflow_clamps_scroll_and_picks_the_window() {
    let plan = apply_reflow(5, 2, 9, &vec![12, 0, 3]).expect("sized terminal");
    let rows: Vec<(usize, usize)> = plan.rows.iter().map(|r: &RowPlacement| (r.line, r.offset)).collect();
    assert_eq!(rows, vec![(0, 0), (0, 5), (0, 10), (1, 0), (2, 0)]);
    assert_eq!(plan.scroll_pos, 3);
    assert_eq!((plan.visible_start, plan.visible_end), (0, 2));
    let plan = apply_reflow(5, 2, 0, &vec![12, 0, 3]).unwrap();
    assert_eq!(plan.scroll_pos, 0);
    assert_eq!((plan.visible_start, plan.visible_end), (3, 5));
}

#[test]
fn scroll_moves_are_clamped() {
    let one = |m: TermViewportMsg| VecDeque::from(vec![m]);
    assert_eq!(apply_scroll(0, &one(TermViewportMsg::scroll(TERM, -3)), 10, 4), Some(3));
    assert_eq!(apply_scroll(3, &one(TermViewportMsg::scroll(TERM, -10)), 10, 4), Some(6));
    assert_eq!(apply_scroll(3, &one(TermViewportMsg::scroll(TERM, 10)), 10, 4), Some(0));
    assert_eq!(apply_scroll(2, &VecDeque::new(), 10, 4), None);
    assert_eq!(apply_scroll(2, &one(TermViewportMsg::jump_bottom(TERM)), 10, 4), Some(0));
    assert_eq!(apply_scroll(0, &one(TermViewportMsg::jump_bottom(TERM)), 10, 4), None);
    assert_eq!(apply_scroll(0, &one(TermViewportMsg::scroll(TERM, -3)), 3, 4), None, "nothing to scroll back over");
}

#[test]
fn scroll_back_and_forth_returns() {
    let msgs = VecDeque::from(vec![TermViewportMsg::scroll(TERM, -2), TermViewportMsg::scroll(TERM, 2)]);
    assert_eq!(apply_scroll(1, &msgs, 10, 4), None);
}

#[test]
fn viewport_msg_targets() {
    assert_eq!(TermViewportMsg::scroll(EntityId(5), 1).term(), EntityId(5));
    assert_eq!(TermViewportMsg::jump_bottom(EntityId(6)).term(), EntityId(6));
}

fn text(run: &TextRun) -> String {
    run.text.iter().collect()
}

#[test]
fn refresh_ui_runs() {
    let red = VtCellStyle { color: VtColor::Palette(9), background: VtColor::Palette(0) };
    let line = vec![VtCell::new('H').with_style(red), VtCell::new('i').with_style(red), VtCell::new('!')];
    let entries = vec![ViewportEntry::Row { offset: 0, line: 0 }, ViewportEntry::NoRow, ViewportEntry::MissingLine];
    let runs = refresh_ui(&entries, &vec![line], 4, 5);
    let texts: Vec<String> = runs.iter().map(text).collect();
    assert_eq!(texts, vec!["Hi", "! \n", "    ", "    \n", "    \n"]);
    assert_eq!(runs[0].style, red);
    assert!(runs[1..].iter().all(|r| r.style == VtCellStyle::default()));
}

#[test]
fn refresh_ui_row_offset_and_newlines() {
    let line: Vec<VtCell> = "ab\ncdefg".chars().map(VtCell::new).collect();
    let entries = vec![ViewportEntry::Row { offset: 0, line: 0 }, ViewportEntry::Row { offset: 4, line: 0 }];
    let runs = refresh_ui(&entries, &vec![line], 4, 2);
    let texts: Vec<String> = runs.iter().map(text).collect();
    assert_eq!(texts, vec!["abc \n", "defg\n"]);
}

#[test]
fn terminfo_lookups() {
    let t = info(vec![EntityId(10), EntityId(11), EntityId(12)], vec![EntityId(21), EntityId(99)]);
    assert_eq!(t.lines(&vec![EntityId(12), EntityId(10)]), vec![1, 0]);
    assert_eq!(t.viewport_rows(&vec![EntityId(20), EntityId(21)]), vec![1]);
    let t = info(vec![EntityId(10), EntityId(11)], Vec::new());
    let rows = t.rows(
        &vec![EntityId(11), EntityId(10)],
        &vec![vec![EntityId(21)], vec![EntityId(20), EntityId(22)]],
        &vec![EntityId(22), EntityId(20), EntityId(21)],
    );
    assert_eq!(rows, vec![1, 0, 2]);
}

#[test]
fn terminfo_writes() {
    let t = info(Vec::new(), Vec::new());
    let m: VtWriteMsg = t.write(b"hi");
    assert_eq!((m.term, m.from, m.bytes), (TERM, None, b"hi".to_vec()));
    let m = t.write_from(EntityId(3), b"yo");
    assert_eq!((m.term, m.from, m.bytes), (TERM, Some(EntityId(3)), b"yo".to_vec()));
    let m = t.write_spans(vec![TermWrite::new("b").with_color(VtColor::Palette(2))]);
    assert_eq!(m.bytes, b"\x1b[0;32;40mb".to_vec());
    let out = t.write_via("x");
    assert_eq!(out.message.len(), 1);
    assert_eq!(out.message[0].text, "x");
    assert_eq!(out.term, TERM);
}

#[test]
fn spans_encode_as_ansi() {
    assert_eq!(term_writes_to_ansi(vec![TermWrite::new("x").reset_style(true)]), b"\x1b[0mx".to_vec());
    assert_eq!(term_writes_to_ansi(vec![TermWrite::new("plain")]), b"plain".to_vec());
    assert_eq!(
        term_writes_to_ansi(vec![TermWrite::new("y").with_color(VtColor::Rgb(1, 2, 3)).with_background(VtColor::Palette(12))]),
        b"\x1b[0;38;2;1;2;3;104my".to_vec()
    );
    assert_eq!(
        term_writes_to_ansi(vec![TermWrite::new("z").with_background(VtColor::Palette(20))]),
        b"\x1b[0;97;48;5;20mz".to_vec()
    );
    assert_eq!(
        term_writes_to_ansi(vec![TermWrite::new("é"), TermWrite::new("!").with_color(VtColor::Palette(1))]),
        "é\x1b[0;31;40m!".as_bytes().to_vec()
    );
}

#[test]
fn process_names() {
    assert!(ProcessName::new("ls").is_ok());
    assert_eq!(ProcessName::new("ls").unwrap().name(), "ls");
    assert!(ProcessName::new("").is_ok());
    assert_eq!(ProcessName::new("a b").unwrap_err(), "Process name must not contain whitespace.");
    assert_eq!(ProcessName::new("ls -la").unwrap_err(), "Process name must not contain whitespace.");
    assert!(ProcessName::new(" ls").is_err());
    assert!(ProcessName::new("ls\t").is_err());
    assert!(ProcessName::new(" ").is_err());
    assert!(ProcessName::new("a\u{3000}b").is_err());
}

#[test]
fn targets_are_deduplicated_in_order() {
    let ids = vec![EntityId(1), EntityId(2), EntityId(1), EntityId(3), EntityId(2)];
    assert_eq!(dedup_targets(&ids), vec![EntityId(1), EntityId(2), EntityId(3)]);
}

#[test]
fn frame_decisions() {
    assert_eq!(ingress_cap(true, 3), usize::MAX);
    assert_eq!(ingress_cap(false, 3), 3);
    assert!(can_draw(true, VtSize { rows: 1, cols: 1 }));
    assert!(!can_draw(true, VtSize { rows: 0, cols: 5 }));
    assert!(!can_draw(false, VtSize { rows: 5, cols: 5 }));
    let styled = TermWrite::new("a").with_color(VtColor::Palette(3));
    assert_eq!(span_reset(&styled), styled.style);
    assert_eq!(span_reset(&TermWrite::new("a").reset_style(true)), Some(VtCellStyle::default()));
    assert_eq!(span_reset(&TermWrite::new("a")), None);
}

#[test]
fn output_channels() {
    let m = TermStdIn::new(TERM, EntityId(2), "ls\n");
    assert_eq!(m.message, "ls\n");
    let m = TermOutputChannel::<2>::writeln(TERM, "oops");
    assert_eq!(m.writes.len(), 2);
    assert_eq!(m.writes[0].text, "oops\n");
    assert!(m.writes[0].reset_style);
    assert_eq!(m.writes[1].text, "");
    assert!(m.writes[1].reset_style);
    assert_eq!(term_writes_to_ansi(m.writes), b"\x1b[0moops\n\x1b[0m".to_vec());
    let m = TermOutputChannel::<1>::write(TERM, "ok");
    assert_eq!(m.writes[0].text, "ok");
    assert!(!m.writes[0].reset_style);
}

#[test]
fn drain_pending_hands_back_queues() {
    let mut input = PendingTermInput::default();
    input.push_writes(vec![TermWrite::new("a"), TermWrite::new("b")], 1024);
    let mut scroll = PendingTermScroll::default();
    scroll.add_delta(-4);
    let (out, sc) = drain_pending(TERM, false, &mut input, &mut scroll);
    assert!(out.is_none() && sc.is_none());
    assert_eq!(input.writes.len(), 2);
    assert_eq!(scroll.delta, -4);
    let (out, sc) = drain_pending(TERM, true, &mut input, &mut scroll);
    let out = out.expect("a resolved terminal gets its output back");
    assert_eq!(out.term, TERM);
    assert_eq!(out.message.len(), 2);
    assert_eq!(out.message[1].text, "b");
    assert_eq!(sc.expect("and its scrolling").delta, -4);
    assert!(input.writes.is_empty());
    assert_eq!(scroll.delta, 0);
}

#[test]
fn cursor_clamps_into_a_shrunk_viewport() {
    let c = VtCursor { row: 30, col: 90, pending_wrap: true };
    let r = q_term::grid::clamp_cursor(c, 80, 24);
    assert_eq!((r.row, r.col, r.pending_wrap), (23, 80, true));
    let r = q_term::grid::clamp_cursor(VtCursor::new(3, 4), 80, 24);
    assert_eq!((r.row, r.col), (3, 4));
    assert!(q_term::grid::Grid::try_new(TERM, Vec::new(), Vec::new(), 80, 24, 0, c).is_none());
    assert!(q_term::grid::Grid::try_new(TERM, Vec::new(), Vec::new(), 80, 24, 0, q_term::grid::clamp_cursor(c, 80, 24)).is_some());
}
