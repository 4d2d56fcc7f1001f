//! The ANSI performer: what the terminal does for each printed
//! character, C0 control and CSI sequence that the parser reports.
use vstd::prelude::*;

use crate::grid::{
    cursor_down, cursor_forward, cursor_up, erased, shifted, tab_col, written, Erase,
    Grid, GridView, MAX_LINE_CELLS,
};
use crate::style::{blank_cell, default_style, palette_color, spec_palette_color, styled_cell, VtCellStyle, VtColor};
use crate::term::{VtCursor, VtModes};

verus! {

/// Bell, `^G`.
pub const BEL: u8 = 0x07;
/// Backspace, `^H`.
pub const BS: u8 = 0x08;
/// Horizontal tab, `^I`.
pub const HT: u8 = 0x09;
/// Line feed, `^J`.
pub const LF: u8 = 0x0a;
/// Carriage return, `^M`.
pub const CR: u8 = 0x0d;
/// Escape, `^[`.
pub const ESC: u8 = 0x1b;

/// Cursor up, n rows.
pub const CUU: u8 = 0x41;
/// Cursor down, n rows.
pub const CUD: u8 = 0x42;
/// Cursor forward, n columns.
pub const CUF: u8 = 0x43;
/// Cursor back, n columns.
pub const CUB: u8 = 0x44;
/// Cursor to the start of the line, n lines down.
pub const CNL: u8 = 0x45;
/// Cursor to the start of the line, n lines up.
pub const CPL: u8 = 0x46;
/// Cursor to column n.
pub const CHA: u8 = 0x47;
/// Cursor to row n, column m.
pub const CUP: u8 = 0x48;
/// Same as CUP.
pub const HVP: u8 = 0x66;
/// Erase in display.
pub const ED: u8 = 0x4a;
/// Erase in line.
pub const EL: u8 = 0x4b;
/// Erase characters.
pub const ECH: u8 = 0x58;
/// Insert blank characters.
pub const ICH: u8 = 0x40;
/// Delete characters.
pub const DCH: u8 = 0x50;
/// Select graphic rendition.
pub const SGR: u8 = 0x6d;
/// Device status report.
pub const DSR: u8 = 0x6e;
/// Primary device attributes.
pub const DA: u8 = 0x63;
/// Set mode.
pub const SM: u8 = 0x68;
/// Reset mode.
pub const RM: u8 = 0x6c;

/// The parameters of a CSI sequence as sequences of values.
pub open spec fn params_view(params: &Vec<Vec<u16>>) -> Seq<Seq<u16>> {
    params@.map_values(|v: Vec<u16>| v@)
}

/// The first value of parameter `i`, or `dflt` when there is no such
/// parameter or it is empty.
pub open spec fn first_or(params: Seq<Seq<u16>>, i: int, dflt: u16) -> u16 {
    if 0 <= i < params.len() && params[i].len() > 0 {
        params[i][0]
    } else {
        dflt
    }
}

/// The repeat count of a cursor movement: the first parameter, at least
/// 1; none when that parameter is present but empty.
pub open spec fn move_count(params: Seq<Seq<u16>>) -> Option<int> {
    if params.len() == 0 {
        Some(1)
    } else if params[0].len() == 0 {
        None
    } else if params[0][0] == 0 {
        Some(1)
    } else {
        Some(params[0][0] as int)
    }
}

/// `v` if it is at least 1, else 1.
pub open spec fn at_least_one(v: u16) -> int {
    if v == 0 {
        1
    } else {
        v as int
    }
}

/// The 1-based coordinate `v` as a 0-based index, clamped to `size`.
pub open spec fn coord(v: u16, size: int) -> int {
    if at_least_one(v) - 1 <= size - 1 {
        at_least_one(v) - 1
    } else {
        size - 1
    }
}

/// The colour of a truecolor SGR: each component truncated to 8 bits.
pub open spec fn rgb8(r: u16, g: u16, b: u16) -> VtColor {
    VtColor::Rgb((r % 256) as u8, (g % 256) as u8, (b % 256) as u8)
}

/// `style` with its foreground (`fg`) or background set to `c`.
pub open spec fn set_color(style: VtCellStyle, fg: bool, c: VtColor) -> VtCellStyle {
    if fg {
        VtCellStyle { color: c, ..style }
    } else {
        VtCellStyle { background: c, ..style }
    }
}

/// The SGR codes that select or reset a palette colour.
pub open spec fn is_palette_code(x: u16) -> bool {
    (30 <= x <= 37) || (39 <= x <= 47) || x == 49 || (90 <= x <= 97) || (100 <= x <= 107)
}

/// The style after a palette SGR code: 39 and 49 restore the default
/// foreground and background; 30–37 / 40–47 select a standard colour,
/// 90–97 / 100–107 a bright one, for the foreground / background.
pub open spec fn palette_apply(style: VtCellStyle, x: u16, dflt: VtCellStyle) -> VtCellStyle {
    let is_standard = x / 10 == 3 || x / 10 == 4;
    let is_bg = x / 10 == 4 || x / 10 == 10;
    if x == 39 {
        VtCellStyle { color: dflt.color, ..style }
    } else if x == 49 {
        VtCellStyle { background: dflt.background, ..style }
    } else {
        set_color(style, !is_bg, spec_palette_color((x % 10) as int, is_standard))
    }
}

/// `i + k`, but no further than `len`.
pub open spec fn next_idx(i: int, k: int, len: int) -> int {
    if i + k <= len {
        i + k
    } else {
        len
    }
}

/// The style after the SGR parameters from `i` on, starting from
/// `style`, with `dflt` the style that code 0 restores. `38;2;r;g;b`,
/// `48;2;r;g;b` and their colon forms set truecolor; `38;5;n`, `48;5;n`
/// (256 colours) are skipped; unknown codes are ignored.
pub open spec fn sgr_apply(params: Seq<Seq<u16>>, i: int, style: VtCellStyle, dflt: VtCellStyle) -> VtCellStyle
    decreases params.len() - i,
{
    if i < 0 || i >= params.len() {
        style
    } else {
        let p = params[i];
        let len = params.len() as int;
        if p.len() == 1 && p[0] == 0 {
            sgr_apply(params, i + 1, dflt, dflt)
        } else if p.len() == 5 && (p[0] == 38 || p[0] == 48) && p[1] == 2 {
            sgr_apply(params, i + 1, set_color(style, p[0] == 38, rgb8(p[2], p[3], p[4])), dflt)
        } else if p.len() == 1 && (p[0] == 38 || p[0] == 48) {
            if first_or(params, i + 1, 1) == 2 && i + 1 < len && params[i + 1].len() > 0 {
                let c = rgb8(first_or(params, i + 2, 0), first_or(params, i + 3, 0), first_or(params, i + 4, 0));
                sgr_apply(params, next_idx(i, 5, len), set_color(style, p[0] == 38, c), dflt)
            } else if first_or(params, i + 1, 1) == 5 && i + 1 < len && params[i + 1].len() > 0 {
                sgr_apply(params, next_idx(i, 3, len), style, dflt)
            } else {
                sgr_apply(params, next_idx(i, 2, len), style, dflt)
            }
        } else if p.len() == 1 && is_palette_code(p[0]) {
            sgr_apply(params, i + 1, palette_apply(style, p[0], dflt), dflt)
        } else {
            sgr_apply(params, i + 1, style, dflt)
        }
    }
}

/// The modes after applying set (`set`) or reset to every DEC private
/// mode listed in the parameters from `i` on: 25 is DECTCEM, 7 DECAWM;
/// others are ignored.
pub open spec fn modes_apply(params: Seq<Seq<u16>>, i: int, modes: VtModes, set: bool) -> VtModes
    decreases params.len() - i,
{
    if i < 0 || i >= params.len() {
        modes
    } else {
        let m = if params[i].len() > 0 && params[i][0] == 25 {
            VtModes { dectcem: set, ..modes }
        } else if params[i].len() > 0 && params[i][0] == 7 {
            VtModes { decawm: set, ..modes }
        } else {
            modes
        };
        modes_apply(params, i + 1, m, set)
    }
}

/// The decimal digits of `n`, in ASCII.
pub open spec fn decimal(n: nat) -> Seq<u8>
    decreases n,
{
    if n < 10 {
        seq![(48 + n) as u8]
    } else {
        decimal(n / 10) + seq![(48 + n % 10) as u8]
    }
}

/// The cursor position report `ESC [ row ; col R`, 1-based.
pub open spec fn dsr_reply(row: nat, col: nat) -> Seq<u8> {
    seq![ESC, 0x5b] + decimal(row + 1) + seq![0x3b] + decimal(col + 1) + seq![0x52]
}

/// The status report `ESC [ 0 n`: ready, no malfunction.
pub open spec fn status_reply() -> Seq<u8> {
    seq![ESC, 0x5b, 0x30, 0x6e]
}

/// The primary device attributes `ESC [ ? 62 ; 22 c`: VT220 with ANSI colour.
pub open spec fn da_reply() -> Seq<u8> {
    seq![ESC, 0x5b, 0x3f, 0x36, 0x32, 0x3b, 0x32, 0x32, 0x63]
}

/// The abstract state of a performer.
pub struct PerformerView {
    pub grid: GridView,
    pub style: VtCellStyle,
    pub default_style: VtCellStyle,
    pub modes: VtModes,
    pub tab_stop: usize,
    pub replies: Seq<u8>,
}

/// Applies the parser's actions to a [`Grid`], tracking the current
/// style, the DEC private modes, the tab width, and the bytes to send
/// back to the program (replies to status queries).
pub struct AnsiPerformer {
    grid: Grid,
    style: VtCellStyle,
    default_style: VtCellStyle,
    modes: VtModes,
    tab_stop: usize,
    replies: Vec<u8>,
}

impl View for AnsiPerformer {
    type V = PerformerView;

    closed spec fn view(&self) -> PerformerView {
        PerformerView {
            grid: self.grid@,
            style: self.style,
            default_style: self.default_style,
            modes: self.modes,
            tab_stop: self.tab_stop,
            replies: self.replies@,
        }
    }
}

/// `v` minus `n`, stopping at 0.
pub open spec fn sat_sub(v: int, n: int) -> int {
    if v >= n {
        v - n
    } else {
        0
    }
}

/// `v` plus `n`, stopping at `max`.
pub open spec fn capped_add(v: int, n: int, max: int) -> int {
    if v + n <= max {
        v + n
    } else {
        max
    }
}

/// `v` plus `k`, stopping at `max`; unchanged for `k == 0`.
pub open spec fn down_by(v: int, k: int, max: int) -> int {
    if k == 0 {
        v
    } else {
        capped_add(v, k, max)
    }
}

/// The cursor after `k` steps of the movement `action` (CUU, CUD, CUF,
/// CUB, CNL or CPL) in a viewport of `rows` by `cols`; the steps stop at
/// the edges of the viewport.
pub open spec fn moved(c: VtCursor, action: u8, k: int, rows: int, cols: int) -> VtCursor {
    if action == CUU {
        VtCursor { row: sat_sub(c.row as int, k) as usize, ..c }
    } else if action == CUD {
        VtCursor { row: down_by(c.row as int, k, rows - 1) as usize, ..c }
    } else if action == CUF {
        VtCursor { col: down_by(c.col as int, k, cols - 1) as usize, ..c }
    } else if action == CUB {
        VtCursor { col: sat_sub(c.col as int, k) as usize, ..c }
    } else if action == CNL {
        VtCursor { row: down_by(c.row as int, k, rows - 1) as usize, col: 0, ..c }
    } else {
        VtCursor { row: sat_sub(c.row as int, k) as usize, col: 0, ..c }
    }
}

/// `p` with only the grid's cursor replaced by `c`.
pub open spec fn with_cursor(p: PerformerView, c: VtCursor) -> PerformerView {
    PerformerView { grid: GridView { cursor: c, ..p.grid }, ..p }
}

/// The outcome of a CSI sequence with final byte `action`, parameters
/// `params` and intermediates `inter`, taking the performer from `p` to
/// `q`. Unknown sequences change nothing.
pub open spec fn csi_done(p: PerformerView, params: Seq<Seq<u16>>, inter: Seq<u8>, action: u8, q: PerformerView) -> bool {
    let g = p.grid;
    let c = g.cursor;
    let rows = g.rows as int;
    let cols = g.cols as int;
    let b = blank_cell(p.style);
    let grid_only = q == PerformerView { grid: q.grid, ..p };
    if action == CUU || action == CUD || action == CUF || action == CUB || action == CNL || action == CPL {
        match move_count(params) {
            None => q == p,
            Some(n) => q == with_cursor(p, moved(c, action, n, rows, cols)),
        }
    } else if action == CHA {
        q == with_cursor(p, VtCursor { col: coord(first_or(params, 0, 1), cols) as usize, ..c })
    } else if action == CUP || action == HVP {
        q == with_cursor(p, VtCursor {
            row: coord(first_or(params, 0, 1), rows) as usize,
            col: coord(first_or(params, 1, 1), cols) as usize,
            ..c
        })
    } else if action == ED {
        grid_only && erased(g, Erase::Display(first_or(params, 0, 0)), b, q.grid)
    } else if action == EL {
        grid_only && erased(g, Erase::Line(first_or(params, 0, 0)), b, q.grid)
    } else if action == ECH {
        grid_only && erased(g, Erase::Chars(at_least_one(first_or(params, 0, 0)) as usize), b, q.grid)
    } else if action == ICH || action == DCH {
        grid_only && shifted(g, action == ICH, at_least_one(first_or(params, 0, 0)) as usize, b, q.grid)
    } else if action == SGR {
        q == PerformerView { style: sgr_apply(params, 0, p.style, p.default_style), ..p }
    } else if (action == SM || action == RM) && inter == seq![0x3fu8] {
        q == PerformerView { modes: modes_apply(params, 0, p.modes, action == SM), ..p }
    } else if action == DSR && inter.len() == 0 && first_or(params, 0, 0) == 6 {
        q == PerformerView { replies: p.replies + dsr_reply(c.row as nat, c.col as nat), ..p }
    } else if action == DSR && inter.len() == 0 && first_or(params, 0, 0) == 5 {
        q == PerformerView { replies: p.replies + status_reply(), ..p }
    } else if action == DA && inter.len() == 0 && first_or(params, 0, 0) == 0 {
        q == PerformerView { replies: p.replies + da_reply(), ..p }
    } else {
        q == p
    }
}

/// The outcome of the C0 control `byte`: LF starts a fresh line below,
/// CR returns to the first column, BS moves one column back and cancels
/// a pending wrap, HT moves to the next tab stop; others (BEL included)
/// change nothing.
pub open spec fn executed(p: PerformerView, byte: u8, q: PerformerView) -> bool {
    let g = p.grid;
    let c = g.cursor;
    if byte == LF {
        &&& q == PerformerView { grid: GridView { lines: q.grid.lines, cursor: VtCursor { col: 0, ..cursor_down(c, g.rows) }, ..g }, ..p }
        &&& q.grid.lines.len() == g.lines.len() + 1
        &&& forall|i: int| 0 <= i < g.lines.len() ==> #[trigger] q.grid.lines[i] == g.lines[i]
        &&& crate::grid::is_fresh_line(q.grid.lines.last(), g.term_id)
    } else if byte == CR {
        q == with_cursor(p, VtCursor { col: 0, ..c })
    } else if byte == BS {
        q == with_cursor(p, VtCursor { col: if c.col == 0 { 0 } else { (c.col - 1) as usize }, pending_wrap: false, ..c })
    } else if byte == HT {
        q == with_cursor(p, VtCursor { col: tab_col(c.col as int, p.tab_stop as int, g.cols as int) as usize, ..c })
    } else {
        q == p
    }
}

/// A cursor movement with an explicit count `n` of at least one moves
/// the cursor `n` steps and stops at the edges of the viewport: up and
/// down change the row, forward and back the column, next and previous
/// line also return to the first column; nothing else changes.
pub proof fn lemma_move_by_count(p: PerformerView, n: u16, inter: Seq<u8>, action: u8, q: PerformerView)
    requires
        crate::grid::grid_wf(p.grid),
        n >= 1,
        action == CUU || action == CUD || action == CUF || action == CUB || action == CNL || action == CPL,
        csi_done(p, seq![seq![n]], inter, action, q),
    ensures
        q == (PerformerView { grid: GridView { cursor: q.grid.cursor, ..p.grid }, ..p }),
        q.grid.cursor.pending_wrap == p.grid.cursor.pending_wrap,
        action == CUD || action == CNL ==> q.grid.cursor.row == (if p.grid.cursor.row + n <= p.grid.rows - 1 {
            p.grid.cursor.row + n
        } else {
            p.grid.rows - 1
        }),
        action == CUU || action == CPL ==> q.grid.cursor.row == (if p.grid.cursor.row >= n {
            p.grid.cursor.row - n
        } else {
            0
        }),
        action == CUF ==> q.grid.cursor.col == (if p.grid.cursor.col + n <= p.grid.cols - 1 {
            p.grid.cursor.col + n
        } else {
            p.grid.cols - 1
        }),
        action == CUB ==> q.grid.cursor.col == (if p.grid.cursor.col >= n {
            p.grid.cursor.col - n
        } else {
            0
        }),
        action == CUD || action == CUU ==> q.grid.cursor.col == p.grid.cursor.col,
        action == CUF || action == CUB ==> q.grid.cursor.row == p.grid.cursor.row,
        action == CNL || action == CPL ==> q.grid.cursor.col == 0,
{
}

/// SGR applied from position `a.len() + j` of `a + rest` is SGR applied
/// from position `j` of `rest`: what came before does not change how the
/// rest reads.
proof fn lemma_sgr_shift(a: Seq<Seq<u16>>, rest: Seq<Seq<u16>>, j: int, s: VtCellStyle, d: VtCellStyle)
    requires
        0 <= j,
    ensures
        sgr_apply(a + rest, a.len() + j, s, d) == sgr_apply(rest, j, s, d),
    decreases rest.len() - j,
{
    let all = a + rest;
    let k = a.len() as int;
    let i = k + j;
    if j < rest.len() {
        assert(all[i] == rest[j]);
        assert forall|t: int| 0 <= t implies #[trigger] first_or(all, i + t, 0) == first_or(rest, j + t, 0) by {
            if j + t < rest.len() {
                assert(all[i + t] == rest[j + t]);
            }
        }
        assert forall|t: int| 0 <= t implies #[trigger] first_or(all, i + t, 1) == first_or(rest, j + t, 1) by {
            if j + t < rest.len() {
                assert(all[i + t] == rest[j + t]);
            }
        }
        if i + 1 < all.len() {
            assert(all[i + 1] == rest[j + 1]);
        }
        assert forall|m: int| 1 <= m implies #[trigger] next_idx(i, m, all.len() as int) == k + next_idx(j, m, rest.len() as int) by {}
        let p = rest[j];
        let nd = if p.len() == 1 && p[0] == 0 { d } else { s };
        lemma_sgr_shift(a, rest, j + 1, d, d);
        lemma_sgr_shift(a, rest, j + 1, s, d);
        lemma_sgr_shift(a, rest, next_idx(j, 2, rest.len() as int), s, d);
        lemma_sgr_shift(a, rest, next_idx(j, 3, rest.len() as int), s, d);
        if p.len() == 5 && (p[0] == 38 || p[0] == 48) && p[1] == 2 {
            lemma_sgr_shift(a, rest, j + 1, set_color(s, p[0] == 38, rgb8(p[2], p[3], p[4])), d);
        }
        if p.len() == 1 && (p[0] == 38 || p[0] == 48) {
            let c = rgb8(first_or(rest, j + 2, 0), first_or(rest, j + 3, 0), first_or(rest, j + 4, 0));
            assert(first_or(all, i + 2, 0) == first_or(rest, j + 2, 0));
            assert(first_or(all, i + 3, 0) == first_or(rest, j + 3, 0));
            assert(first_or(all, i + 4, 0) == first_or(rest, j + 4, 0));
            assert(first_or(all, i + 1, 1) == first_or(rest, j + 1, 1));
            lemma_sgr_shift(a, rest, next_idx(j, 5, rest.len() as int), set_color(s, p[0] == 38, c), d);
        }
        if p.len() == 1 && is_palette_code(p[0]) {
            lemma_sgr_shift(a, rest, j + 1, palette_apply(s, p[0], d), d);
        }
    }
}

/// A 256-colour selector (`38;5;n` or `48;5;n`) is skipped with its
/// index: the parameters after it apply as if it were not there, so on
/// its own it leaves the style unchanged, for every index.
pub proof fn lemma_sgr_skips_256_colour(sel: u16, n: u16, rest: Seq<Seq<u16>>, s: VtCellStyle, d: VtCellStyle)
    requires
        sel == 38 || sel == 48,
    ensures
        sgr_apply(seq![seq![sel], seq![5u16], seq![n]] + rest, 0, s, d) == sgr_apply(rest, 0, s, d),
        sgr_apply(seq![seq![sel], seq![5u16], seq![n]], 0, s, d) == s,
{
    let a = seq![seq![sel], seq![5u16], seq![n]];
    let all = a + rest;
    assert(all[0] == seq![sel]);
    assert(all[1] == seq![5u16]);
    assert(first_or(all, 1, 1) == 5);
    lemma_sgr_shift(a, rest, 0, s, d);
    assert(next_idx(0, 3, all.len() as int) == 3);
    let e = Seq::<Seq<u16>>::empty();
    assert(a + e =~= a);
    lemma_sgr_shift(a, e, 0, s, d);
}

/// `CSI 38;5;n m` and `CSI 48;5;n m` change nothing: the performer is
/// left exactly as it was, for every index `n`.
pub proof fn lemma_csi_256_colour_is_ignored(p: PerformerView, sel: u16, n: u16, inter: Seq<u8>, q: PerformerView)
    requires
        sel == 38 || sel == 48,
        csi_done(p, seq![seq![sel], seq![5u16], seq![n]], inter, SGR, q),
    ensures
        q == p,
{
    lemma_sgr_skips_256_colour(sel, n, Seq::empty(), p.style, p.default_style);
}

/// Appends the decimal digits of `n` to `out`.
pub fn push_decimal(out: &mut Vec<u8>, n: usize)
    ensures
        final(out)@ == old(out)@ + decimal(n as nat),
    decreases n,
{
    if n >= 10 {
        push_decimal(out, n / 10);
    }
    out.push(48 + (n % 10) as u8);
    assert(final(out)@ =~= old(out)@ + decimal(n as nat));
}

/// The first value of parameter `i`, or `dflt`.
pub fn param_first_or(params: &Vec<Vec<u16>>, i: usize, dflt: u16) -> (v: u16)
    ensures
        v == first_or(params_view(params), i as int, dflt),
{
    if i < params.len() && params[i].len() > 0 {
        params[i][0]
    } else {
        dflt
    }
}

/// The colour of a truecolor SGR.
pub fn rgb8_exec(r: u16, g: u16, b: u16) -> (c: VtColor)
    ensures
        c == rgb8(r, g, b),
{
    VtColor::Rgb((r % 256) as u8, (g % 256) as u8, (b % 256) as u8)
}

/// The style after a palette SGR code; see [`palette_apply`].
pub fn palette_apply_exec(style: VtCellStyle, x: u16, dflt: VtCellStyle) -> (s: VtCellStyle)
    requires
        is_palette_code(x),
    ensures
        s == palette_apply(style, x, dflt),
{
    let is_standard = x / 10 == 3 || x / 10 == 4;
    let is_bg = x / 10 == 4 || x / 10 == 10;
    if x == 39 {
        VtCellStyle { color: dflt.color, ..style }
    } else if x == 49 {
        VtCellStyle { background: dflt.background, ..style }
    } else {
        let c = palette_color(x % 10, is_standard);
        if is_bg {
            VtCellStyle { background: c, ..style }
        } else {
            VtCellStyle { color: c, ..style }
        }
    }
}

impl AnsiPerformer {
    /// A performer over `grid`, in the default style, with the default
    /// modes and a tab width of 8.
    pub fn new(grid: Grid) -> (p: AnsiPerformer)
        requires
            grid.wf(),
        ensures
            p@ == (PerformerView {
                grid: grid@,
                style: default_style(),
                default_style: default_style(),
                modes: VtModes { dectcem: true, decawm: true },
                tab_stop: 8,
                replies: Seq::<u8>::empty(),
            }),
            p.wf(),
    {
        AnsiPerformer {
            grid,
            style: VtCellStyle::default(),
            default_style: VtCellStyle::default(),
            modes: VtModes::default(),
            tab_stop: 8,
            replies: Vec::new(),
        }
    }

    /// The performer is well formed: its grid is.
    pub open spec fn wf(&self) -> bool {
        crate::grid::grid_wf(self@.grid)
    }

    /// Sets both the current and the default style to `style`.
    pub fn reset_style(&mut self, style: VtCellStyle)
        ensures
            final(self)@ == (PerformerView { style, default_style: style, ..old(self)@ }),
    {
        self.default_style = style;
        self.style = style;
    }

    /// Sets the current style, keeping the default.
    pub fn set_style(&mut self, style: VtCellStyle)
        ensures
            final(self)@ == (PerformerView { style, ..old(self)@ }),
    {
        self.style = style;
    }

    /// Sets the DEC private modes.
    pub fn set_modes(&mut self, modes: VtModes)
        ensures
            final(self)@ == (PerformerView { modes, ..old(self)@ }),
    {
        self.modes = modes;
    }

    /// Sets the tab width.
    pub fn set_tab_stop(&mut self, width: usize)
        ensures
            final(self)@ == (PerformerView { tab_stop: width, ..old(self)@ }),
    {
        self.tab_stop = width;
    }

    pub fn grid(&self) -> (g: &Grid)
        ensures
            g@ == self@.grid,
    {
        &self.grid
    }

    pub fn style(&self) -> (s: VtCellStyle)
        ensures
            s == self@.style,
    {
        self.style
    }

    pub fn modes(&self) -> (m: VtModes)
        ensures
            m == self@.modes,
    {
        self.modes
    }

    pub fn replies(&self) -> (r: &Vec<u8>)
        ensures
            r@ == self@.replies,
    {
        &self.replies
    }

    /// Gives back the grid, the current style, the modes and the replies.
    pub fn into_parts(self) -> (r: (Grid, VtCellStyle, VtModes, Vec<u8>))
        ensures
            r.0@ == self@.grid,
            r.1 == self@.style,
            r.2 == self@.modes,
            r.3@ == self@.replies,
    {
        (self.grid, self.style, self.modes, self.replies)
    }

    /// Prints `c`: writes it in the current style under the cursor and
    /// advances the cursor, wrapping at the right margin.
    pub fn print(&mut self, c: char)
        requires
            old(self).wf(),
        ensures
            final(self).wf(),
            final(self)@ == (PerformerView { grid: final(self)@.grid, ..old(self)@ }),
            exists|h: GridView|
                written(old(self)@.grid, styled_cell(c, old(self)@.style), h) && final(self)@.grid == (GridView {
                    cursor: cursor_forward(h.cursor, h.cols, h.rows, true),
                    ..h
                }),
    {
        self.grid.write(c, self.style);
        let ghost h = self.grid@;
        self.grid.increment_char(true);
        assert(written(old(self)@.grid, styled_cell(c, old(self)@.style), h));
    }

    /// Repeats the movement `action` `n` times.
    fn move_cursor(&mut self, action: u8, n: u16)
        requires
            old(self).wf(),
            action == CUU || action == CUD || action == CUF || action == CUB || action == CNL || action == CPL,
        ensures
            final(self).wf(),
            final(self)@ == with_cursor(
                old(self)@,
                moved(old(self)@.grid.cursor, action, n as int, old(self)@.grid.rows as int, old(self)@.grid.cols as int),
            ),
    {
        let ghost p0 = self@;
        let ghost c0 = VtCursor { col: if action == CNL || action == CPL { 0 } else { p0.grid.cursor.col }, ..p0.grid.cursor };
        if action == CNL || action == CPL {
            self.grid.set_col(0);
        }
        let mut i: u16 = 0;
        while i < n
            invariant
                self.wf(),
                i <= n,
                self@ == with_cursor(p0, moved(c0, action, i as int, p0.grid.rows as int, p0.grid.cols as int)),
                action == CUU || action == CUD || action == CUF || action == CUB || action == CNL || action == CPL,
            decreases n - i,
        {
            if action == CUU || action == CPL {
                self.grid.decrement_line();
            } else if action == CUD || action == CNL {
                self.grid.increment_line();
            } else if action == CUF {
                self.grid.increment_char(false);
            } else {
                self.grid.decrement_char(false);
            }
            i = i + 1;
        }
        assert(moved(c0, action, n as int, p0.grid.rows as int, p0.grid.cols as int) == moved(
            p0.grid.cursor,
            action,
            n as int,
            p0.grid.rows as int,
            p0.grid.cols as int,
        ));
    }

    /// Applies the SGR parameters; see [`sgr_apply`].
    fn apply_sgr(&mut self, params: &Vec<Vec<u16>>)
        ensures
            final(self)@ == (PerformerView {
                style: sgr_apply(params_view(params), 0, old(self)@.style, old(self)@.default_style),
                ..old(self)@
            }),
    {
        let ghost ps = params_view(params);
        let len = params.len();
        let mut i: usize = 0;
        while i < len
            invariant
                i <= len,
                len == ps.len(),
                ps == params_view(params),
                self@ == (PerformerView { style: self@.style, ..old(self)@ }),
                sgr_apply(ps, 0, old(self)@.style, old(self)@.default_style) == sgr_apply(
                    ps,
                    i as int,
                    self@.style,
                    old(self)@.default_style,
                ),
            decreases len - i,
        {
            let p = &params[i];
            assert(ps[i as int] == p@);
            let d = self.default_style;
            if p.len() == 1 && p[0] == 0 {
                self.style = d;
                i = i + 1;
            } else if p.len() == 5 && (p[0] == 38 || p[0] == 48) && p[1] == 2 {
                let c = rgb8_exec(p[2], p[3], p[4]);
                if p[0] == 38 {
                    self.style.color = c;
                } else {
                    self.style.background = c;
                }
                i = i + 1;
            } else if p.len() == 1 && (p[0] == 38 || p[0] == 48) {
                let fg = p[0] == 38;
                let avail = len - i;
                let i1 = if avail > 1 { i + 1 } else { len };
                let i2 = if avail > 2 { i + 2 } else { len };
                let i3 = if avail > 3 { i + 3 } else { len };
                let i4 = if avail > 4 { i + 4 } else { len };
                let mode = param_first_or(params, i1, 1);
                let has_mode = avail > 1 && params[i1].len() > 0;
                if mode == 2 && has_mode {
                    let r = param_first_or(params, i2, 0);
                    let g = param_first_or(params, i3, 0);
                    let b = param_first_or(params, i4, 0);
                    let c = rgb8_exec(r, g, b);
                    if fg {
                        self.style.color = c;
                    } else {
                        self.style.background = c;
                    }
                    i = if avail >= 5 { i + 5 } else { len };
                } else if mode == 5 && has_mode {
                    i = if avail >= 3 { i + 3 } else { len };
                } else {
                    i = if avail >= 2 { i + 2 } else { len };
                }
            } else if p.len() == 1 && ((30 <= p[0] && p[0] <= 37) || (39 <= p[0] && p[0] <= 47) || p[0] == 49 || (90
                <= p[0] && p[0] <= 97) || (100 <= p[0] && p[0] <= 107)) {
                self.style = palette_apply_exec(self.style, p[0], d);
                i = i + 1;
            } else {
                i = i + 1;
            }
        }
    }

    /// Sets (`set`) or resets the DEC private modes listed in `params`.
    fn apply_modes(&mut self, params: &Vec<Vec<u16>>, set: bool)
        ensures
            final(self)@ == (PerformerView { modes: modes_apply(params_view(params), 0, old(self)@.modes, set), ..old(self)@ }),
    {
        let ghost ps = params_view(params);
        let len = params.len();
        let mut i: usize = 0;
        while i < len
            invariant
                i <= len,
                len == ps.len(),
                ps == params_view(params),
                self@ == (PerformerView { modes: self@.modes, ..old(self)@ }),
                modes_apply(ps, 0, old(self)@.modes, set) == modes_apply(ps, i as int, self@.modes, set),
            decreases len - i,
        {
            let p = &params[i];
            assert(ps[i as int] == p@);
            if p.len() > 0 && p[0] == 25 {
                self.modes.dectcem = set;
            } else if p.len() > 0 && p[0] == 7 {
                self.modes.decawm = set;
            }
            i = i + 1;
        }
    }

    /// Performs the CSI sequence with final byte `action`; see
    /// [`csi_done`]. `_ignore` (set by the parser when parameters
    /// overflowed) does not change the outcome.
    pub fn csi_dispatch(&mut self, params: &Vec<Vec<u16>>, intermediates: &Vec<u8>, _ignore: bool, action: u8)
        requires
            old(self).wf(),
        ensures
            final(self).wf(),
            csi_done(old(self)@, params_view(params), intermediates@, action, final(self)@),
    {
        let ghost ps = params_view(params);
        if action == CUU || action == CUD || action == CUF || action == CUB || action == CNL || action == CPL {
            let n = if params.len() == 0 {
                1
            } else if params[0].len() == 0 {
                return ;
            } else if params[0][0] == 0 {
                1
            } else {
                params[0][0]
            };
            assert(params.len() > 0 ==> ps[0] == params@[0]@);
            self.move_cursor(action, n);
        } else if action == CHA {
            let v = param_first_or(params, 0, 1);
            let col = if v == 0 { 0 } else { (v - 1) as usize };
            let col = if col <= self.grid.cols() - 1 { col } else { self.grid.cols() - 1 };
            self.grid.set_col(col);
        } else if action == CUP || action == HVP {
            let r = param_first_or(params, 0, 1);
            let c = param_first_or(params, 1, 1);
            let row = if r == 0 { 0 } else { (r - 1) as usize };
            let row = if row <= self.grid.rows() - 1 { row } else { self.grid.rows() - 1 };
            let col = if c == 0 { 0 } else { (c - 1) as usize };
            let col = if col <= self.grid.cols() - 1 { col } else { self.grid.cols() - 1 };
            self.grid.set_row(row);
            self.grid.set_col(col);
        } else if action == ED {
            let mode = param_first_or(params, 0, 0);
            self.grid.erase(Erase::Display(mode), self.style);
        } else if action == EL {
            let mode = param_first_or(params, 0, 0);
            self.grid.erase(Erase::Line(mode), self.style);
        } else if action == ECH {
            let v = param_first_or(params, 0, 0);
            let n: usize = if v == 0 { 1 } else { v as usize };
            self.grid.erase(Erase::Chars(n), self.style);
        } else if action == ICH || action == DCH {
            let v = param_first_or(params, 0, 0);
            let n: usize = if v == 0 { 1 } else { v as usize };
            self.grid.shift(action == ICH, n, self.style);
        } else if action == SGR {
            self.apply_sgr(params);
        } else if (action == SM || action == RM) && intermediates.len() == 1 && intermediates[0] == 0x3f {
            assert(intermediates@ == seq![0x3fu8]);
            self.apply_modes(params, action == SM);
        } else if action == DSR && intermediates.len() == 0 && param_first_or(params, 0, 0) == 6 {
            let c = self.grid.cursor();
            self.replies.push(ESC);
            self.replies.push(0x5b);
            push_decimal(&mut self.replies, c.row + 1);
            self.replies.push(0x3b);
            push_decimal(&mut self.replies, c.col + 1);
            self.replies.push(0x52);
            assert(self.replies@ =~= old(self)@.replies + dsr_reply(c.row as nat, c.col as nat));
        } else if action == DSR && intermediates.len() == 0 && param_first_or(params, 0, 0) == 5 {
            self.replies.push(ESC);
            self.replies.push(0x5b);
            self.replies.push(0x30);
            self.replies.push(0x6e);
            assert(self.replies@ =~= old(self)@.replies + status_reply());
        } else if action == DA && intermediates.len() == 0 && param_first_or(params, 0, 0) == 0 {
            self.replies.push(ESC);
            self.replies.push(0x5b);
            self.replies.push(0x3f);
            self.replies.push(0x36);
            self.replies.push(0x32);
            self.replies.push(0x3b);
            self.replies.push(0x32);
            self.replies.push(0x32);
            self.replies.push(0x63);
            assert(self.replies@ =~= old(self)@.replies + da_reply());
        } else {
            assert(!((action == SM || action == RM) && intermediates@ == seq![0x3fu8]));
        }
    }

    /// Executes the C0 control `byte`; see [`executed`].
    pub fn execute(&mut self, byte: u8)
        requires
            old(self).wf(),
        ensures
            final(self).wf(),
            executed(old(self)@, byte, final(self)@),
    {
        if byte == LF {
            self.grid.line_feed();
        } else if byte == CR {
            self.grid.set_col(0);
        } else if byte == BS {
            self.grid.decrement_char(false);
            self.grid.clear_pending_wrap();
        } else if byte == HT {
            self.grid.tab(self.tab_stop);
        }
    }
}

} // verus!
