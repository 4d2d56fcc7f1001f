//! Output reaching a terminal: the ingress queue, the output policy,
//! the parser state kept between frames, and the queues of a terminal
//! that is not ready yet.
use anstyle_parse::{Params, Parser, Perform};
use q_term::ansi::AnsiPerformer;
use q_term::grid::Grid;
use q_term::encode::term_writes_to_ansi;
use q_term::events::{PendingTermViewportMsgs, PendingTermViewportCap, TermViewportMsg};
use q_term::io::{
    BackgroundTerminalOutput, PendingTermInput, PendingTermScroll, PendingVtWriteCap, PendingVtWrites, TermWrite,
    VtWriteMsg,
};
use q_term::reflow::apply_reflow;
use q_term::style::{VtCell, VtCellStyle, VtColor};
use q_term::io::{TermOutputChannel, TermStdOut};
use q_term::systems::{apply_scroll, can_draw, drain_pending, ingress_cap, process_input, span_reset};
use q_term::term::VtSize;
use q_term::term::VtForegroundProcessTarget;
use q_term::term::VtCursor;
use q_term::EntityId;

struct Adapter<'a>(&'a mut AnsiPerformer);

impl Perform for Adapter<'_> {
    fn print(&mut self, c: char) {
        self.0.print(c);
    }

    fn execute(&mut self, byte: u8) {
        self.0.execute(byte);
    }

    fn csi_dispatch(&mut self, params: &Params, intermediates: &[u8], ignore: bool, action: u8) {
        let params: Vec<Vec<u16>> = params.iter().map(|p| p.to_vec()).collect();
        self.0.csi_dispatch(&params, &intermediates.to_vec(), ignore, action);
    }
}

struct Vt {
    perf: AnsiPerformer,
    parser: Parser,
}

impl Vt {
    fn new(cols: usize, rows: usize) -> Vt {
        let grid = Grid::try_new(EntityId(1), Vec::new(), Vec::new(), cols, rows, 0, VtCursor::default())
            .expect("a terminal with room for a cell");
        Vt { perf: AnsiPerformer::new(grid), parser: Parser::default() }
    }

    fn feed(&mut self, bytes: &[u8]) {
        for b in bytes {
            self.parser.advance(&mut Adapter(&mut self.perf), *b);
        }
    }

    /// Ends a frame: the grid is handed back and read in again, as the
    /// application does between updates; the parser and the current
    /// style carry over.
    fn next_frame(&mut self) {
        let cols = self.perf.grid().cols();
        let rows = self.perf.grid().rows();
        let term = self.perf.grid().term_id();
        let style = self.perf.style();
        let placeholder = Grid::try_new(term, Vec::new(), Vec::new(), cols, rows, 0, VtCursor::default()).unwrap();
        let perf = std::mem::replace(&mut self.perf, AnsiPerformer::new(placeholder));
        let (grid, _, modes, _) = perf.into_parts();
        let sync = grid.sync();
        let grid = Grid::try_new(term, sync.lines, Vec::new(), cols, rows, sync.scroll_pos.0, sync.cursor).unwrap();
        self.perf = AnsiPerformer::new(grid);
        self.perf.set_style(style);
        self.perf.set_modes(modes);
    }

    fn text(&self) -> String {
        self.perf.grid().lines().iter().map(|l| l.line.value().as_string()).collect()
    }

    fn cells(&self, i: usize) -> Vec<VtCell> {
        self.perf.grid().lines()[i].line.value().cells().to_vec()
    }
}


const TERM: EntityId = EntityId(1);

/// Queues `msgs` for a terminal, then, when it is ready, hands what
/// reaches it to the parser.
fn ingress(vt: &mut Vt, ready: bool, cap: PendingVtWriteCap, policy: BackgroundTerminalOutput, fg: Option<EntityId>, msgs: Vec<VtWriteMsg>) -> PendingVtWrites {
    let mut pending = PendingVtWrites::default();
    for m in msgs {
        pending.push(m, ingress_cap(ready, cap.0));
    }
    if ready {
        let chunks = pending.take();
        let bytes = process_input(&chunks, policy, fg.map(VtForegroundProcessTarget::new));
        vt.feed(&bytes);
    }
    pending
}

fn span(text: &str) -> TermWrite {
    TermWrite::new(text)
}

fn total_bytes(p: &PendingTermInput) -> usize {
    p.writes.iter().map(|w| w.text.len()).sum()
}

#[test]
fn under_cap_no_eviction() {
    let mut p = PendingTermInput::default();
    let evicted = p.push_writes(vec![span("aa"), span("bb"), span("cc")], 32);
    assert_eq!(evicted, 0);
    let texts: Vec<_> = p.writes.iter().map(|w| w.text.as_str()).collect();
    assert_eq!(texts, ["aa", "bb", "cc"]);
    assert!(total_bytes(&p) <= 32);
}

#[test]
fn single_push_over_cap_evicts_fifo() {
    let mut p = PendingTermInput::default();
    let pre = p.push_writes(vec![span("aaaa"), span("bbbb"), span("cccc"), span("dddd")], 16);
    assert_eq!(pre, 0);
    assert_eq!(total_bytes(&p), 16);
    let evicted = p.push_writes(vec![span("eeee")], 16);
    assert!(evicted > 0, "expected eviction, got {evicted}");
    let texts: Vec<_> = p.writes.iter().map(|w| w.text.as_str()).collect();
    assert_eq!(texts, ["bbbb", "cccc", "dddd", "eeee"]);
    assert!(total_bytes(&p) <= 16);
}

#[test]
fn oversize_single_span_admitted() {
    let mut p = PendingTermInput::default();
    p.push_writes(vec![span("aa"), span("bb"), span("cc")], 16);
    let prior_len = p.writes.len();
    let big = "x".repeat(64);
    let evicted = p.push_writes(vec![span(&big)], 16);
    assert_eq!(evicted, prior_len);
    assert_eq!(p.writes.len(), 1);
    assert_eq!(p.writes[0].text.len(), 64);
}

#[test]
fn batched_push_mixed_eviction() {
    let mut p = PendingTermInput::default();
    p.push_writes(vec![span("aa"), span("bb")], 16);
    assert_eq!(total_bytes(&p), 4);
    let evicted = p.push_writes(vec![span("cccc"), span("dddd"), span("eeee"), span("ffff")], 16);
    assert!(evicted >= 1);
    let texts: Vec<_> = p.writes.iter().map(|w| w.text.as_str()).collect();
    assert_eq!(texts, ["cccc", "dddd", "eeee", "ffff"]);
    assert!(total_bytes(&p) <= 16);
}

#[test]
fn input_set_writes_are_processed_in_the_same_update() {
    let mut vt = Vt::new(20, 5);
    ingress(&mut vt, true, PendingVtWriteCap::default(), BackgroundTerminalOutput::default(), None, vec![VtWriteMsg::new(TERM, b"ordered".to_vec())]);
    assert_eq!(vt.text(), "ordered", "Input-set write was not processed in the same Update");
}

#[test]
fn zero_sized_terminal_is_not_ready() {
    assert!(apply_reflow(0, 0, 0, &Vec::new()).is_none(), "zero-sized terminal was ready");
    assert!(apply_reflow(20, 5, 0, &Vec::new()).is_some());
}

#[test]
fn direct_bytes_render_without_a_foreground_peer() {
    let mut vt = Vt::new(20, 5);
    ingress(&mut vt, true, PendingVtWriteCap::default(), BackgroundTerminalOutput::default(), None, vec![VtWriteMsg::new(TERM, b"hello".to_vec())]);
    assert_eq!(vt.text(), "hello");
}

#[test]
fn parser_persists_partial_escape_sequences_across_frames() {
    let mut vt = Vt::new(20, 5);
    let policy = BackgroundTerminalOutput::default();
    ingress(&mut vt, true, PendingVtWriteCap::default(), policy, None, vec![VtWriteMsg::new(TERM, b"\x1b[38;2;255;0;".to_vec())]);
    vt.next_frame();
    ingress(&mut vt, true, PendingVtWriteCap::default(), policy, None, vec![VtWriteMsg::new(TERM, b"0mX".to_vec())]);
    assert_eq!(vt.text(), "X");
    assert_eq!(vt.cells(0)[0].style.color, VtColor::Rgb(255, 0, 0), "split truecolor sequence did not retain parser state");
}

#[test]
fn parser_persists_partial_utf8_across_frames() {
    let mut vt = Vt::new(20, 5);
    let policy = BackgroundTerminalOutput::default();
    ingress(&mut vt, true, PendingVtWriteCap::default(), policy, None, vec![VtWriteMsg::new(TERM, vec![0xf0, 0x9f])]);
    vt.next_frame();
    ingress(&mut vt, true, PendingVtWriteCap::default(), policy, None, vec![VtWriteMsg::new(TERM, vec![0x98, 0x8e])]);
    assert_eq!(vt.text(), "😎");
}

#[test]
fn rendition_persists_across_frames() {
    let mut vt = Vt::new(20, 5);
    let policy = BackgroundTerminalOutput::default();
    ingress(&mut vt, true, PendingVtWriteCap::default(), policy, None, vec![VtWriteMsg::new(TERM, b"\x1b[31m".to_vec())]);
    vt.next_frame();
    ingress(&mut vt, true, PendingVtWriteCap::default(), policy, None, vec![VtWriteMsg::new(TERM, b"x".to_vec())]);
    assert_eq!(vt.text(), "x");
    assert_eq!(vt.cells(0)[0].style.color, VtColor::Palette(1), "rendition state did not persist across frames");
}

#[test]
fn rich_helper_encodes_into_the_ordered_byte_stream() {
    let mut vt = Vt::new(20, 5);
    let green = VtColor::Palette(2);
    ingress(
        &mut vt,
        true,
        PendingVtWriteCap::default(),
        BackgroundTerminalOutput::default(),
        None,
        vec![
            VtWriteMsg::new(TERM, b"a".to_vec()),
            VtWriteMsg::new(TERM, term_writes_to_ansi(vec![TermWrite::new("b").with_color(green)])),
            VtWriteMsg::new(TERM, b"c".to_vec()),
        ],
    );
    assert_eq!(vt.text(), "abc");
    let cells = vt.cells(0);
    assert_eq!(cells[1].style.color, green, "rich helper style was not encoded");
    assert_eq!(cells[2].style.color, green, "rich helper bytes were not ordered with adjacent writes");
}

#[test]
fn allow_policy_renders_a_different_source_peer() {
    let mut vt = Vt::new(20, 5);
    let fg = EntityId(7);
    let background = EntityId(8);
    ingress(&mut vt, true, PendingVtWriteCap::default(), BackgroundTerminalOutput::Allow, Some(fg), vec![VtWriteMsg::from_peer(TERM, background, b"background".to_vec())]);
    assert_eq!(vt.text(), "background");
}

#[test]
fn suppress_policy_only_filters_a_different_source_peer() {
    let mut vt = Vt::new(20, 5);
    let foreground = EntityId(7);
    let background = EntityId(8);
    ingress(
        &mut vt,
        true,
        PendingVtWriteCap::default(),
        BackgroundTerminalOutput::Suppress,
        Some(foreground),
        vec![
            VtWriteMsg::from_peer(TERM, background, b"drop".to_vec()),
            VtWriteMsg::from_peer(TERM, foreground, b"keep".to_vec()),
            VtWriteMsg::new(TERM, b" direct".to_vec()),
        ],
    );
    assert_eq!(vt.text(), "keep direct");
}

#[test]
fn ready_ingress_is_not_limited_by_pending_cap() {
    let mut vt = Vt::new(20, 5);
    ingress(&mut vt, true, PendingVtWriteCap(0), BackgroundTerminalOutput::default(), None, vec![VtWriteMsg::new(TERM, b"kept".to_vec())]);
    assert_eq!(vt.text(), "kept");
}

#[test]
fn pending_ingress_evicts_oldest_whole_chunks() {
    let mut vt = Vt::new(20, 5);
    let pending = ingress(
        &mut vt,
        false,
        PendingVtWriteCap(3),
        BackgroundTerminalOutput::default(),
        None,
        vec![VtWriteMsg::new(TERM, b"ab".to_vec()), VtWriteMsg::new(TERM, b"cd".to_vec())],
    );
    assert_eq!(pending.len(), 2, "pending byte count exceeded cap");
    assert_eq!(pending.chunks()[0].bytes, b"cd", "pending queue did not evict the oldest whole chunk");
    assert_eq!(vt.text(), "", "a terminal that is not ready draws nothing");
}

#[test]
fn viewport_messages_retain_cross_operation_order() {
    let mut pending = PendingTermViewportMsgs::default();
    let cap = PendingTermViewportCap::default();
    let msgs = [TermViewportMsg::jump_bottom(TERM), TermViewportMsg::scroll(TERM, 5), TermViewportMsg::scroll(TERM, -5)];
    for m in msgs {
        pending.push(m, cap.0);
    }
    assert!(pending.messages().iter().eq(msgs.iter()), "viewport message order changed: {:?}", pending.messages());
}

#[test]
fn pending_viewport_messages_evict_oldest_at_cap() {
    let mut pending = PendingTermViewportMsgs::default();
    let cap = PendingTermViewportCap(std::mem::size_of::<TermViewportMsg>());
    pending.push(TermViewportMsg::scroll(TERM, 1), cap.0);
    pending.push(TermViewportMsg::scroll(TERM, 2), cap.0);
    assert!(pending.messages().front() == Some(&TermViewportMsg::scroll(TERM, 2)), "expected oldest viewport message eviction: {:?}", pending.messages());
    assert_eq!(pending.len_bytes(), std::mem::size_of::<TermViewportMsg>(), "pending viewport storage exceeded its cap");
}

#[test]
fn jump_to_bottom_waits_for_terminal_readiness() {
    let mut pending = PendingTermViewportMsgs::default();
    pending.push(TermViewportMsg::jump_bottom(TERM), PendingTermViewportCap::default().0);
    assert!(pending.messages().front() == Some(&TermViewportMsg::jump_bottom(TERM)), "jump-to-bottom was not retained while pending");
    let plan = apply_reflow(80, 24, 5, &vec![0; 40]).expect("a sized terminal is ready");
    let msgs = pending.take();
    let pos = apply_scroll(plan.scroll_pos, &msgs, plan.rows.len(), 24);
    assert_eq!(pos, Some(0));
}

#[test]
fn pending_scroll_attach_and_drain() {
    let mut pending = PendingTermViewportMsgs::default();
    pending.push(TermViewportMsg::scroll(TERM, 5), PendingTermViewportCap::default().0);
    assert!(pending.messages().front() == Some(&TermViewportMsg::scroll(TERM, 5)), "expected pending scroll 5, got {:?}", pending.messages());
    assert!(apply_reflow(80, 24, 0, &Vec::new()).is_some());
    let msgs = pending.take();
    assert_eq!(msgs.len(), 1);
    assert!(pending.messages().is_empty());
    assert_eq!(pending.len_bytes(), 0);
}

#[test]
fn pending_scroll_delta_saturates() {
    let mut p = PendingTermScroll::default();
    p.add_delta(3);
    p.add_delta(-5);
    assert_eq!(p.delta, -2);
    p.add_delta(isize::MAX);
    p.add_delta(isize::MAX);
    assert_eq!(p.delta, isize::MAX);
    p.add_delta(isize::MIN);
    p.add_delta(isize::MIN);
    assert_eq!(p.delta, isize::MIN);
}

#[test]
fn hello_world_hierarchy() {
    let mut vt = Vt::new(80, 24);
    ingress(&mut vt, true, PendingVtWriteCap::default(), BackgroundTerminalOutput::default(), None, vec![VtWriteMsg::new(TERM, b"Hello, world!".to_vec())]);
    let cursor = vt.perf.grid().cursor();
    let perf = std::mem::replace(&mut vt.perf, AnsiPerformer::new(Grid::try_new(TERM, Vec::new(), Vec::new(), 80, 24, 0, VtCursor::default()).unwrap()));
    let (grid, _, _, _) = perf.into_parts();
    let sync = grid.sync();
    assert_eq!(sync.lines.len(), 1, "Expected exactly 1 line");
    let line = sync.lines[0].line.value();
    assert_eq!(line.as_string(), "Hello, world!");
    assert_eq!(line.cells().len(), 13);
    for cell in line.cells() {
        assert_eq!(cell.style, VtCellStyle::default());
    }
    assert_eq!(sync.lines[0].rows.len(), 1, "Expected exactly 1 row");
    assert_eq!(sync.lines[0].rows[0].row.value().offset, 0);
    assert_eq!(sync.visible, vec![vec![true]], "Expected 1 viewport row");
    assert_eq!(cursor.col, 13);
    assert_eq!(cursor.row, 0);
    assert!(!cursor.pending_wrap);
    assert_eq!(sync.scroll_pos.0, 0);
}

/// Draws output spans on a terminal that can take them, as the output
/// path does: each span may first set the style, then its text is parsed.
fn draw(vt: &mut Vt, out: &TermStdOut) {
    for w in &out.message {
        if let Some(style) = span_reset(w) {
            vt.perf.reset_style(style);
        }
        vt.feed(w.text.as_bytes());
    }
}

#[test]
fn pending_input_attach_and_drain() {
    let target = EntityId(42);
    let out = TermStdOut::write(target, "Hello, world!");
    let mut pending = PendingTermInput::default();
    let mut scroll = PendingTermScroll::default();
    assert!(!can_draw(false, VtSize { cols: 0, rows: 0 }));
    pending.push_writes(out.message, 1 << 20);
    let queued: String = pending.writes.iter().map(|w| w.text.clone()).collect();
    assert_eq!(queued, "Hello, world!", "expected pending text \"Hello, world!\", got {queued:?}");
    let size = VtSize { cols: 80, rows: 24 };
    assert!(can_draw(true, size));
    let (drained, _) = drain_pending(target, true, &mut pending, &mut scroll);
    let drained = drained.expect("the queued output is handed back");
    assert!(pending.writes.is_empty());
    let mut vt = Vt::new(size.cols, size.rows);
    draw(&mut vt, &drained);
    assert_eq!(vt.perf.grid().lines().len(), 1, "expected 1 line");
    assert_eq!(vt.text(), "Hello, world!");
}

#[test]
fn writeln_clears_styles_after_the_line() {
    let mut vt = Vt::new(20, 5);
    let out = TermOutputChannel::<1>::writeln(TERM, "\x1b[31mred");
    for w in &out.writes {
        if let Some(style) = span_reset(w) {
            vt.perf.reset_style(style);
        }
        vt.feed(w.text.as_bytes());
    }
    vt.feed(b"x");
    assert_eq!(vt.cells(0)[0].style.color, VtColor::Palette(1));
    assert_eq!(vt.cells(1)[0].value, 'x');
    assert_eq!(vt.cells(1)[0].style, VtCellStyle::default(), "the line's style must not outlast it");
}
