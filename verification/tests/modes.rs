//! DEC private modes, replies to status queries, and cursor blinking.
use anstyle_parse::{Params, Parser, Perform};
use q_term::ansi::AnsiPerformer;
use q_term::grid::Grid;
use q_term::ui::flash_cursor;
use q_term::term::VtCursor;
use q_term::EntityId;

struct Adapter<'a>(&'a mut AnsiPerformer);

impl Perform for Adapter<'_> {
    fn print(&mut self, c: char) {
        self.0.print(c);
    }

    fn execute(&mut self, byte: u8) {
        self.0.execute(byte);
    }

    fn csi_dispatch(&mut self, params: &Params, intermediates: &[u8], ignore: bool, action: u8) {
        let params: Vec<Vec<u16>> = params.iter().map(|p| p.to_vec()).collect();
        self.0.csi_dispatch(&params, &intermediates.to_vec(), ignore, action);
    }
}

struct Vt {
    perf: AnsiPerformer,
    parser: Parser,
}

impl Vt {
    fn new(cols: usize, rows: usize) -> Vt {
        let grid = Grid::try_new(EntityId(1), Vec::new(), Vec::new(), cols, rows, 0, VtCursor::default())
            .expect("a terminal with room for a cell");
        Vt { perf: AnsiPerformer::new(grid), parser: Parser::default() }
    }

    fn feed(&mut self, input: &str) {
        for b in input.bytes() {
            self.parser.advance(&mut Adapter(&mut self.perf), b);
        }
    }

    fn cursor(&self) -> VtCursor {
        self.perf.grid().cursor()
    }

    fn lines(&self) -> Vec<String> {
        self.perf.grid().lines().iter().map(|l| l.line.value().as_string()).collect()
    }

}

fn ansi_test(cols: usize, rows: usize, input: &str) -> Vt {
    let mut vt = Vt::new(cols, rows);
    vt.feed(input);
    vt
}



fn modes_test(input: &str) -> q_term::term::VtModes {
    ansi_test(20, 4, input).perf.modes()
}

fn writeback_test(cols: usize, rows: usize, input: &str, expect: &[u8]) {
    let vt = ansi_test(cols, rows, input);
    let acc = vt.perf.replies().clone();
    assert_eq!(
        acc.as_slice(),
        expect,
        "writeback bytes did not match: expected {}, got {}",
        String::from_utf8_lossy(expect),
        String::from_utf8_lossy(&acc)
    );
}

#[test]
fn vtmodes_defaults_attached_to_terminal() {
    let modes = modes_test("");
    assert!(modes.dectcem, "VtModes::dectcem should default to true");
    assert!(modes.decawm);
}

#[test]
fn dectcem_reset_clears_flag() {
    assert!(!modes_test("\x1b[?25l").dectcem, "CSI ?25 l (DECTCEM reset) should clear VtModes.dectcem");
}

#[test]
fn dectcem_set_restores_flag() {
    assert!(modes_test("\x1b[?25l\x1b[?25h").dectcem, "CSI ?25 h after ?25 l should restore VtModes.dectcem");
}

#[test]
fn dectcem_multi_param_ignores_unknown() {
    assert!(!modes_test("\x1b[?999;25l").dectcem, "multi-param RM must scan every param, not just params[0]");
}

#[test]
fn ansi_mode_does_not_touch_private_modes() {
    assert!(!modes_test("\x1b[?25l\x1b[25h").dectcem, "bare `CSI 25 h` (no `?`) must not flip the private-mode DECTCEM flag");
}

#[test]
fn unknown_private_mode_is_noop() {
    assert!(modes_test("\x1b[?999h\x1b[?999l").dectcem, "unknown private modes (`?999`) must be silently ignored");
}

#[test]
fn decawm_reset_and_set() {
    assert!(!modes_test("\x1b[?7l").decawm);
    assert!(modes_test("\x1b[?7l\x1b[?7h").decawm);
}

#[test]
fn dectcem_off_hides_cursor_via_flash_cursor() {
    let dectcem = modes_test("\x1b[?25l").dectcem;
    assert!(!flash_cursor(dectcem, false, false, true), "dectcem=false must force the cursor hidden");
}

#[test]
fn dectcem_off_overrides_zero_duration_strobe() {
    assert!(!flash_cursor(false, true, false, true), "dectcem=false must override the zero-duration blink-disabled sentinel");
}

#[test]
fn flash_cursor_zero_duration_keeps_cursor_visible() {
    assert!(flash_cursor(true, true, false, false), "zero-duration strobe must force the cursor visible, not blink");
    assert!(flash_cursor(true, true, true, true));
}

#[test]
fn flash_cursor_blinks_when_period_elapses() {
    assert!(!flash_cursor(true, false, true, true));
    assert!(flash_cursor(true, false, true, false));
    assert!(flash_cursor(true, false, false, true));
}

#[test]
fn dsr_cursor_at_origin_reports_1_1() {
    writeback_test(20, 5, "\x1b[6n", b"\x1b[1;1R");
}

#[test]
fn dsr_cursor_after_writes_reports_current_position() {
    writeback_test(20, 5, "hi\x1b[6n", b"\x1b[1;3R");
}

#[test]
fn dsr_cursor_after_cup_reports_target_position() {
    writeback_test(40, 20, "\x1b[5;10H\x1b[6n", b"\x1b[5;10R");
}

#[test]
fn dsr_status_reports_ok() {
    writeback_test(20, 5, "\x1b[5n", b"\x1b[0n");
}

#[test]
fn da_primary_no_param_replies_vt220_color() {
    writeback_test(20, 5, "\x1b[c", b"\x1b[?62;22c");
}

#[test]
fn da_primary_explicit_zero_replies_vt220_color() {
    writeback_test(20, 5, "\x1b[0c", b"\x1b[?62;22c");
}

#[test]
fn dsr_report_after_two_digit_position() {
    writeback_test(40, 20, "\x1b[12;34H\x1b[6n", b"\x1b[12;34R");
}
