//! Erasing and shifting cells: ED, EL, ECH, ICH and DCH.
use anstyle_parse::{Params, Parser, Perform};
use q_term::ansi::AnsiPerformer;
use q_term::grid::Grid;
use q_term::style::{VtCell, VtCellStyle, VtColor};
use q_term::term::VtCursor;
use q_term::EntityId;

struct Adapter<'a>(&'a mut AnsiPerformer);

impl Perform for Adapter<'_> {
    fn print(&mut self, c: char) {
        self.0.print(c);
    }

    fn execute(&mut self, byte: u8) {
        self.0.execute(byte);
    }

    fn csi_dispatch(&mut self, params: &Params, intermediates: &[u8], ignore: bool, action: u8) {
        let params: Vec<Vec<u16>> = params.iter().map(|p| p.to_vec()).collect();
        self.0.csi_dispatch(&params, &intermediates.to_vec(), ignore, action);
    }
}

struct Vt {
    perf: AnsiPerformer,
    parser: Parser,
}

impl Vt {
    fn new(cols: usize, rows: usize) -> Vt {
        let grid = Grid::try_new(EntityId(1), Vec::new(), Vec::new(), cols, rows, 0, VtCursor::default())
            .expect("a terminal with room for a cell");
        Vt { perf: AnsiPerformer::new(grid), parser: Parser::default() }
    }

    fn feed(&mut self, input: &str) {
        for b in input.bytes() {
            self.parser.advance(&mut Adapter(&mut self.perf), b);
        }
    }

    fn cursor(&self) -> VtCursor {
        self.perf.grid().cursor()
    }

    fn lines(&self) -> Vec<String> {
        self.perf.grid().lines().iter().map(|l| l.line.value().as_string()).collect()
    }

    fn cells(&self, i: usize) -> Vec<VtCell> {
        self.perf.grid().lines()[i].line.value().cells().to_vec()
    }
}

fn ansi_test(cols: usize, rows: usize, input: &str) -> Vt {
    let mut vt = Vt::new(cols, rows);
    vt.feed(input);
    vt
}


fn shift_test(cols: usize, rows: usize, input: &str) -> Vt {
    ansi_test(cols, rows, input)
}

const RED: VtColor = VtColor::Palette(9);
const LIME: VtColor = VtColor::Palette(10);

#[test]
fn el0_erase_to_end_of_line() {
    let vt = ansi_test(10, 3, "ABCDEFG\x1b[1;4H\x1b[0K");
    let s = &vt.lines()[0];
    assert_eq!(s, "ABC    ", "EL0 expected 'ABC    ', got {s:?}");
}

#[test]
fn el1_erase_to_start_of_line() {
    let vt = ansi_test(10, 3, "ABCDEFG\x1b[1;4H\x1b[1K");
    let s = &vt.lines()[0];
    assert_eq!(s, "    EFG", "EL1 expected '    EFG', got {s:?}");
}

#[test]
fn el2_erase_entire_line() {
    let vt = ansi_test(10, 3, "ABCDEFG\x1b[1;4H\x1b[2K");
    let s = &vt.lines()[0];
    assert_eq!(s, "       ", "EL2 expected '       ', got {s:?}");
}

#[test]
fn el_preserves_cursor() {
    let vt = ansi_test(10, 3, "ABCDEFG\x1b[1;4H\x1b[2K");
    assert!(vt.cursor().row == 0 && vt.cursor().col == 3, "EL must preserve cursor at (0, 3)");
}

#[test]
fn el2_uses_current_bg_color() {
    let vt = ansi_test(10, 3, "ABC\x1b[101m\x1b[1;1H\x1b[2K");
    let cells = vt.cells(0);
    assert!(
        cells.len() == 3 && cells.iter().all(|c| c.value == ' ' && c.style.background == RED),
        "EL2 expected 3 red-bg spaces, got {cells:?}"
    );
}

#[test]
fn ed0_erase_to_end_of_screen() {
    let vt = ansi_test(5, 3, "AAA\nBBB\nCCC\x1b[2;2H\x1b[0J");
    let lines = vt.lines();
    assert_eq!(lines[0], "AAA", "ED0 line 0 unchanged");
    assert_eq!(lines[1], "B  ", "ED0 line 1 expected 'B  '");
    assert!(lines[2].trim().is_empty(), "ED0 line 2 should be blank, got {:?}", lines[2]);
}

#[test]
fn ed1_erase_to_start_of_screen() {
    let vt = ansi_test(5, 3, "AAA\nBBB\nCCC\x1b[2;2H\x1b[1J");
    let lines = vt.lines();
    assert!(lines[0].trim().is_empty(), "ED1 line 0 should be blank, got {:?}", lines[0]);
    assert_eq!(lines[1], "  B", "ED1 line 1 expected '  B'");
    assert_eq!(lines[2], "CCC", "ED1 line 2 unchanged");
}

#[test]
fn ed2_erase_entire_screen() {
    let vt = ansi_test(5, 3, "AAA\nBBB\nCCC\x1b[2;2H\x1b[2J");
    let lines = vt.lines();
    assert!(lines.iter().all(|l| l.trim().is_empty()), "ED2 should blank every line, got {lines:?}");
}

#[test]
fn ed2_uses_current_bg_color() {
    let vt = ansi_test(5, 3, "AAA\nBBB\nCCC\x1b[102m\x1b[2;2H\x1b[2J");
    let n = vt.lines().len();
    let ok = (0..n).all(|i| vt.cells(i).iter().all(|c| c.value == ' ' && c.style.background == LIME));
    assert!(ok, "ED2 expected all-green-bg spaces");
}

#[test]
fn ed_preserves_cursor() {
    let vt = ansi_test(5, 3, "AAA\nBBB\nCCC\x1b[2;2H\x1b[2J");
    assert!(vt.cursor().row == 1 && vt.cursor().col == 1, "ED must preserve cursor at (1, 1)");
}

#[test]
fn ech_blanks_n_cells_no_shift() {
    let vt = shift_test(10, 3, "ABCDEFG\x1b[1;3H\x1b[3X");
    assert_eq!(vt.lines()[0], "AB   FG");
}

#[test]
fn ech_default_count_is_one() {
    let vt = shift_test(10, 3, "ABCDEFG\x1b[1;3H\x1b[X");
    assert_eq!(vt.lines()[0], "AB DEFG");
}

#[test]
fn ech_clamps_past_row_end() {
    let vt = shift_test(5, 3, "ABCDE\x1b[1;3H\x1b[99X");
    assert_eq!(vt.lines()[0], "AB   ");
}

#[test]
fn ech_preserves_cursor() {
    let vt = shift_test(10, 3, "ABCDEFG\x1b[1;3H\x1b[3X");
    assert!(vt.cursor().row == 0 && vt.cursor().col == 2, "ECH must preserve cursor at (0, 2)");
}

#[test]
fn ech_uses_current_bg_color() {
    let vt = shift_test(10, 3, "ABCDEFG\x1b[101m\x1b[1;3H\x1b[3X");
    let cells = vt.cells(0);
    let ok = cells.len() >= 5 && cells[2..5].iter().all(|c| c.value == ' ' && c.style.background == RED);
    assert!(ok, "ECH expected 3 red-bg spaces at [2..5], got {cells:?}");
}

#[test]
fn ich_shifts_right_drops_tail() {
    let vt = shift_test(7, 3, "ABCDEFG\x1b[1;3H\x1b[2@");
    assert_eq!(vt.lines()[0], "AB  CDE");
}

#[test]
fn ich_default_count_is_one() {
    let vt = shift_test(7, 3, "ABCDEFG\x1b[1;3H\x1b[@");
    assert_eq!(vt.lines()[0], "AB CDEF");
}

#[test]
fn ich_count_past_row_blanks_all() {
    let vt = shift_test(7, 3, "ABCDEFG\x1b[1;3H\x1b[99@");
    assert_eq!(vt.lines()[0], "AB     ");
}

#[test]
fn ich_preserves_cursor() {
    let vt = shift_test(7, 3, "ABCDEFG\x1b[1;3H\x1b[2@");
    assert!(vt.cursor().row == 0 && vt.cursor().col == 2, "ICH must preserve cursor at (0, 2)");
}

#[test]
fn ich_uses_current_bg_color() {
    let vt = shift_test(7, 3, "ABCDEFG\x1b[101m\x1b[1;3H\x1b[2@");
    let cells = vt.cells(0);
    let ok = cells.len() >= 4 && cells[2..4].iter().all(|c| c.value == ' ' && c.style.background == RED);
    assert!(ok, "ICH expected 2 red-bg spaces at [2..4], got {cells:?}");
}

#[test]
fn ich_short_line_preserves_in_storage_tail() {
    let vt = shift_test(10, 3, "ABC\x1b[1;1H\x1b[2@");
    let s = vt.lines()[0].clone();
    assert_eq!(s.trim_end(), "  ABC", "ICH short-line expected '  ABC' (rtrimmed), got {s:?}");
}

#[test]
fn dch_shifts_left_pads_tail() {
    let vt = shift_test(7, 3, "ABCDEFG\x1b[1;3H\x1b[2P");
    assert_eq!(vt.lines()[0], "ABEFG  ");
}

#[test]
fn dch_default_count_is_one() {
    let vt = shift_test(7, 3, "ABCDEFG\x1b[1;3H\x1b[P");
    assert_eq!(vt.lines()[0], "ABDEFG ");
}

#[test]
fn dch_count_past_row_blanks_all() {
    let vt = shift_test(7, 3, "ABCDEFG\x1b[1;3H\x1b[99P");
    assert_eq!(vt.lines()[0], "AB     ");
}

#[test]
fn dch_preserves_cursor() {
    let vt = shift_test(7, 3, "ABCDEFG\x1b[1;3H\x1b[2P");
    assert!(vt.cursor().row == 0 && vt.cursor().col == 2, "DCH must preserve cursor at (0, 2)");
}

#[test]
fn dch_uses_current_bg_color() {
    let vt = shift_test(7, 3, "ABCDEFG\x1b[101m\x1b[1;3H\x1b[2P");
    let cells = vt.cells(0);
    let ok = cells.len() == 7 && cells[5..7].iter().all(|c| c.value == ' ' && c.style.background == RED);
    assert!(ok, "DCH expected 2 red-bg spaces at [5..7], got {cells:?}");
}

#[test]
fn dch_short_line_pads_to_margin_with_style() {
    let vt = shift_test(7, 3, "ABC\x1b[101m\x1b[1;1H\x1b[1P");
    let default_bg = VtCellStyle::default().background;
    let cells = vt.cells(0);
    let layout_ok = cells.len() == 7
        && cells[0].value == 'B'
        && cells[1].value == 'C'
        && cells[2..6].iter().all(|c| c.value == ' ' && c.style.background == default_bg)
        && cells[6].value == ' '
        && cells[6].style.background == RED;
    assert!(layout_ok, "DCH short-line expected 'BC' + 4 default blanks + 1 red blank (len 7), got {cells:?}");
}

#[test]
fn ech_ich_dch_no_op_on_empty_grid() {
    let vt = ansi_test(10, 3, "\x1b[3X\x1b[2@\x1b[2P");
    assert!(vt.lines().is_empty() && vt.cursor().row == 0 && vt.cursor().col == 0);
}

#[test]
fn insert_then_delete_restores_the_row_head() {
    let vt = shift_test(7, 3, "ABCDEFG\x1b[1;3H\x1b[2@\x1b[2P");
    assert_eq!(vt.lines()[0], "ABCDE  ");
}
