//! The ANSI interpreter driven byte by byte through a parser, as the
//! application drives it.
use anstyle_parse::{Params, Parser, Perform};
use q_term::ansi::AnsiPerformer;
use q_term::grid::Grid;
use q_term::style::{VtCell, VtCellStyle, VtColor};
use q_term::term::VtCursor;
use q_term::EntityId;

struct Adapter<'a>(&'a mut AnsiPerformer);

impl Perform for Adapter<'_> {
    fn print(&mut self, c: char) {
        self.0.print(c);
    }

    fn execute(&mut self, byte: u8) {
        self.0.execute(byte);
    }

    fn csi_dispatch(&mut self, params: &Params, intermediates: &[u8], ignore: bool, action: u8) {
        let params: Vec<Vec<u16>> = params.iter().map(|p| p.to_vec()).collect();
        self.0.csi_dispatch(&params, &intermediates.to_vec(), ignore, action);
    }
}

struct Vt {
    perf: AnsiPerformer,
    parser: Parser,
}

impl Vt {
    fn new(cols: usize, rows: usize) -> Vt {
        let grid = Grid::try_new(EntityId(1), Vec::new(), Vec::new(), cols, rows, 0, VtCursor::default())
            .expect("a terminal with room for a cell");
        Vt { perf: AnsiPerformer::new(grid), parser: Parser::default() }
    }

    fn with_tab_stop(cols: usize, rows: usize, width: usize) -> Vt {
        let mut vt = Vt::new(cols, rows);
        vt.perf.set_tab_stop(width);
        vt
    }

    fn feed(&mut self, input: &str) {
        for b in input.bytes() {
            self.parser.advance(&mut Adapter(&mut self.perf), b);
        }
    }

    fn cursor(&self) -> VtCursor {
        self.perf.grid().cursor()
    }

    fn lines(&self) -> Vec<String> {
        self.perf.grid().lines().iter().map(|l| l.line.value().as_string()).collect()
    }

    fn cells(&self, i: usize) -> Vec<VtCell> {
        self.perf.grid().lines()[i].line.value().cells().to_vec()
    }
}

fn ansi_test(cols: usize, rows: usize, input: &str) -> Vt {
    let mut vt = Vt::new(cols, rows);
    vt.feed(input);
    vt
}

fn rgb(r: u8, g: u8, b: u8) -> VtColor {
    VtColor::Rgb(r, g, b)
}

/// The standard palette entries and their bright variants.
const BLACK: VtColor = VtColor::Palette(0);
const DARK_RED: VtColor = VtColor::Palette(1);
const GREEN: VtColor = VtColor::Palette(2);
const GRAY: VtColor = VtColor::Palette(8);

fn palette(k: u8) -> VtColor {
    VtColor::Palette(k)
}

#[test]
fn cursor_up_default() {
    let vt = ansi_test(80, 24, "A\n\x1b[A");
    assert_eq!(vt.cursor().row, 0, "CUU default should move up 1");
}

#[test]
fn cursor_down_default() {
    let vt = ansi_test(80, 24, "A\x1b[B");
    assert_eq!(vt.cursor().row, 1, "CUD default should move down 1");
}

#[test]
fn cursor_forward_default() {
    let vt = ansi_test(80, 24, "A\x1b[C");
    assert_eq!(vt.cursor().col, 2, "CUF default should move right 1 (start at 1 after 'A')");
}

#[test]
fn cursor_back_default() {
    let vt = ansi_test(80, 24, "AB\x1b[D");
    assert_eq!(vt.cursor().col, 1, "CUB default should move left 1 (start at 2 after 'AB')");
}

#[test]
fn cnl_default() {
    let vt = ansi_test(80, 24, "ABC\x1b[E");
    assert_eq!(vt.cursor().row, 1, "CNL default should move down 1");
    assert_eq!(vt.cursor().col, 0, "CNL should reset col to 0");
}

#[test]
fn cpl_default() {
    let vt = ansi_test(80, 24, "A\nBCD\x1b[F");
    assert_eq!(vt.cursor().row, 0, "CPL default should move up 1");
    assert_eq!(vt.cursor().col, 0, "CPL should reset col to 0");
}

#[test]
fn cursor_forward_clamp() {
    let vt = ansi_test(10, 24, "AAAAAAAAA\x1b[5C");
    assert_eq!(vt.cursor().col, 9, "CUF should clamp to last column (cols-1 = 9)");
}

#[test]
fn cursor_back_wrap_not_past_end() {
    let vt = ansi_test(10, 24, "A\x1b[D");
    assert_eq!(vt.cursor().col, 0, "CUB at col 0 without wrap should clamp to 0");
}

#[test]
fn palette_background() {
    let mut input = String::new();
    for i in 0..8u8 {
        input.push_str(&format!("\x1b[{}m{}", 40 + i, (b'A' + i) as char));
    }
    for i in 0..8u8 {
        input.push_str(&format!("\x1b[{}m{}", 100 + i, (b'I' + i) as char));
    }
    input.push_str("\x1b[0m!");
    let vt = ansi_test(80, 24, &input);
    let cells = vt.cells(0);
    assert_eq!(cells.len(), 17, "Expected 17 cells");
    for i in 0..8usize {
        assert_eq!(cells[i].style.background, palette(i as u8), "Standard bg color {} (ESC[{}m) mismatch", i, 40 + i);
    }
    for i in 0..8usize {
        assert_eq!(cells[8 + i].style.background, palette(8 + i as u8), "Bright bg color {} (ESC[{}m) mismatch", i, 100 + i);
    }
    assert_eq!(cells[16].style, VtCellStyle::default(), "Final '!' should have default style");
}

#[test]
fn sgr_default_fg_bg() {
    let vt = ansi_test(80, 24, "\x1b[31;42mX\x1b[39mY\x1b[49mZ");
    let cells = vt.cells(0);
    assert_eq!(cells.len(), 3, "Expected 3 cells, got {}", cells.len());
    assert_eq!(cells[0].style.color, DARK_RED, "X fg should be dark red");
    assert_eq!(cells[0].style.background, GREEN, "X bg should be green");
    assert_eq!(cells[1].style.color, VtCellStyle::default().color, "Y fg should be default after SGR 39");
    assert_eq!(cells[1].style.background, GREEN, "Y bg should still be green");
    assert_eq!(cells[2].style.color, VtCellStyle::default().color, "Z fg should be default");
    assert_eq!(cells[2].style.background, VtCellStyle::default().background, "Z bg should be default after SGR 49");
}

#[test]
fn sgr_combined_styles() {
    let vt = ansi_test(80, 24, "\x1b[31;42mA\x1b[0mB");
    let cells = vt.cells(0);
    assert_eq!(cells.len(), 2, "Expected 2 cells, got {}", cells.len());
    assert_eq!(cells[0].style.color, DARK_RED, "A fg should be dark red");
    assert_eq!(cells[0].style.background, GREEN, "A bg should be green");
    assert_eq!(cells[1].style, VtCellStyle::default(), "B should have default style after reset");
}

#[test]
fn sgr_reset() {
    let vt = ansi_test(80, 24, "\x1b[38;2;100;200;50;48;2;10;20;30mX\x1b[0mY");
    let cells = vt.cells(0);
    assert_eq!(cells.len(), 2, "Expected 2 cells, got {}", cells.len());
    assert_eq!(cells[0].style.color, rgb(100, 200, 50), "X fg should be srgb(100,200,50)");
    assert_eq!(cells[0].style.background, rgb(10, 20, 30), "X bg should be srgb(10,20,30)");
    assert_eq!(cells[1].style, VtCellStyle::default(), "Y should have default style after SGR 0");
}

#[test]
fn line_feed_and_carriage_return() {
    let vt = ansi_test(80, 24, "ABC\nDEF\rG");
    let lines = vt.lines();
    assert_eq!(lines.len(), 2, "LF should create a second line, got {}", lines.len());
    assert_eq!(lines[0], "ABC");
    assert_eq!(lines[1], "GEF");
    assert_eq!(vt.cursor().row, 1);
    assert_eq!(vt.cursor().col, 1);
}

#[test]
fn line_wrapping() {
    let vt = ansi_test(5, 24, "ABCDEFGH");
    let lines = vt.lines();
    assert_eq!(lines.len(), 2, "wrapping should create 2 lines, got {}", lines.len());
    assert_eq!(lines[0], "ABCDE");
    assert_eq!(lines[1], "FGH");
    assert_eq!(vt.cursor().row, 1);
    assert_eq!(vt.cursor().col, 3);
}

#[test]
fn truecolor() {
    let vt = ansi_test(80, 24, "\x1b[38;2;255;0;128;48;2;0;64;255mHi\x1b[0m!");
    let lines = vt.lines();
    assert_eq!(lines[0], "Hi!");
    let cells = vt.cells(0);
    assert_eq!(cells.len(), 3, "Expected 3 cells, got {}", cells.len());
    let colored_style = VtCellStyle { color: rgb(255, 0, 128), background: rgb(0, 64, 255) };
    assert!(cells[0].value == 'H' && cells[0].style == colored_style, "cell[0] should be 'H' with colored style");
    assert!(cells[1].value == 'i' && cells[1].style == colored_style, "cell[1] should be 'i' with colored style");
    assert!(cells[2].value == '!' && cells[2].style == VtCellStyle::default(), "cell[2] should be '!' with default style");
}

#[test]
fn palette_foreground() {
    let mut input = String::new();
    for i in 0..8u8 {
        input.push_str(&format!("\x1b[{}m{}", 30 + i, (b'A' + i) as char));
    }
    for i in 0..8u8 {
        input.push_str(&format!("\x1b[{}m{}", 90 + i, (b'I' + i) as char));
    }
    input.push_str("\x1b[0m!");
    let vt = ansi_test(80, 24, &input);
    let cells = vt.cells(0);
    assert_eq!(cells.len(), 17, "Expected 17 cells, got {}", cells.len());
    for i in 0..8usize {
        assert_eq!(cells[i].style.color, palette(i as u8), "Standard fg color {} (ESC[{}m) mismatch", i, 30 + i);
        assert_eq!(cells[i].style.background, VtCellStyle::default().background, "Standard bg color {} (ESC[{}m) mismatch", i, 40 + i);
    }
    for i in 0..8usize {
        assert_eq!(cells[8 + i].style.color, palette(8 + i as u8), "Bright fg color {} (ESC[{}m) mismatch", i, 90 + i);
    }
    assert_eq!(cells[16].value, '!', "expected '!', got '{}'", cells[16].value);
    assert_eq!(cells[16].style, VtCellStyle::default(), "expected default style after reset");
}

#[test]
fn cursor_write_arbitrary_positions() {
    let input = "\x1b[1;1HA\x1b[6;11HB\x1b[1;1HC\x1b[3;8H";
    let vt = ansi_test(40, 24, input);
    let cell_at = |row: usize, col: usize| -> Option<VtCell> {
        let lines = vt.perf.grid().lines();
        lines.get(row).and_then(|l| l.line.value().cells().get(col).copied())
    };
    let c = cell_at(0, 0).expect("cell at (0,0)");
    assert_eq!(c.value, 'C', "overwrite: expected 'C', got '{}'", c.value);
    let c = cell_at(5, 10).expect("cell at (5,10)");
    assert_eq!(c.value, 'B', "expected 'B', got '{}'", c.value);
    assert_eq!(vt.cursor().row, 2, "final cursor row: expected 2, got {}", vt.cursor().row);
    assert_eq!(vt.cursor().col, 7, "final cursor col: expected 7, got {}", vt.cursor().col);
}

#[test]
fn backspace_moves_cursor_left() {
    let vt = ansi_test(80, 24, "AB\x08");
    assert_eq!(vt.lines()[0], "AB", "BS should not erase");
    assert_eq!(vt.cursor().col, 1, "BS should move cursor to col 1");
}

#[test]
fn backspace_then_print_overwrites() {
    let vt = ansi_test(80, 24, "AB\x08C");
    assert_eq!(vt.lines()[0], "AC", "expected 'AC' (BS + overwrite)");
    assert_eq!(vt.cursor().col, 2, "cursor col after overwrite should be 2");
}

#[test]
fn backspace_at_col_zero_clamps() {
    let vt = ansi_test(80, 24, "A\x08\x08");
    assert_eq!(vt.lines()[0], "A", "BS should not erase 'A'");
    assert_eq!(vt.cursor().col, 0, "BS at col 0 should clamp to 0");
    assert_eq!(vt.cursor().row, 0, "BS at col 0 should stay on row 0");
}

#[test]
fn backspace_clears_pending_wrap() {
    let vt = ansi_test(5, 24, "ABCDE\x08X");
    let lines = vt.lines();
    assert_eq!(lines.len(), 1, "BS should cancel pending wrap; expected 1 line, got {}", lines.len());
    assert_eq!(lines[0], "ABCDX");
    assert_eq!(vt.cursor().row, 0, "cursor should stay on row 0");
}

#[test]
fn tab_from_col_zero() {
    let vt = ansi_test(80, 24, "\tA");
    assert_eq!(vt.cells(0).get(8).map(|c| c.value), Some('A'), "HT should land 'A' at col 8");
    assert_eq!(vt.cursor().col, 9, "cursor col after 'A' should be 9");
}

#[test]
fn tab_advances_to_next_stop() {
    let vt = ansi_test(80, 24, "ABC\tX");
    assert_eq!(vt.cells(0).get(8).map(|c| c.value), Some('X'), "HT should land 'X' at col 8");
    assert_eq!(vt.cursor().col, 9, "cursor col after 'X' should be 9");
}

#[test]
fn tab_already_on_stop_advances() {
    let vt = ansi_test(80, 24, "01234567\tX");
    assert_eq!(vt.cells(0).get(16).map(|c| c.value), Some('X'), "HT on stop should land 'X' at col 16");
    assert_eq!(vt.cursor().col, 17, "cursor col after 'X' should be 17");
}

#[test]
fn tab_clamps_at_last_column() {
    let vt = ansi_test(10, 24, "012345678\tX");
    assert_eq!(vt.cells(0).get(9).map(|c| c.value), Some('X'), "HT clamp: 'X' should be at col 9");
    assert_eq!(vt.cursor().row, 0, "cursor row should stay 0");
}

#[test]
fn tab_respects_configurable_width() {
    let mut vt = Vt::with_tab_stop(80, 24, 4);
    vt.feed("A\tB");
    assert_eq!(vt.cells(0).get(4).map(|c| c.value), Some('B'), "with tabstop=4, 'B' should be at col 4");
    assert_eq!(vt.cursor().col, 5, "cursor col after 'B' should be 5");
}

#[test]
fn default_colors_are_white_on_black() {
    let style = VtCellStyle::default();
    assert_eq!(style.color, palette(15));
    assert_eq!(style.background, BLACK);
    assert_ne!(GRAY, BLACK);
}
