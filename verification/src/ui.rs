//! The user-interface side of a terminal: the entities that show it,
//! how its viewport rows become styled runs of text, and when its
//! cursor shows.
use vstd::prelude::*;

use crate::style::{default_cell, default_style, VtCell, VtCellStyle};
use crate::EntityId;

verus! {

/// The user interface of a terminal; holds the terminal's entity.
#[derive(Clone, Copy, Debug, PartialEq, Eq, Structural)]
pub struct VtUi(EntityId);

impl VtUi {
    pub fn new(term_id: EntityId) -> (u: VtUi)
        ensures
            u.spec_target() == term_id,
    {
        VtUi(term_id)
    }

    pub closed spec fn spec_target(&self) -> EntityId {
        self.0
    }

    pub fn target(&self) -> (t: EntityId)
        ensures
            t == self.spec_target(),
    {
        self.0
    }
}

/// The node under a [`VtUi`] that holds the text of the grid; holds the
/// entity of its [`VtUi`].
#[derive(Clone, Copy, Debug, PartialEq, Eq, Structural)]
pub struct VtUiGrid(pub EntityId);

impl VtUiGrid {
    pub fn target(&self) -> (t: EntityId)
        ensures
            t == self.0,
    {
        self.0
    }
}

/// The [`VtUi`] side of [`VtUiGrid`]: the grid node's entity.
#[derive(Clone, Copy, Debug, PartialEq, Eq, Structural)]
pub struct VtUiGridTarget(EntityId);

impl VtUiGridTarget {
    pub fn new(grid: EntityId) -> (t: VtUiGridTarget)
        ensures
            t.spec_target() == grid,
    {
        VtUiGridTarget(grid)
    }

    pub closed spec fn spec_target(&self) -> EntityId {
        self.0
    }

    pub fn target(&self) -> (t: EntityId)
        ensures
            t == self.spec_target(),
    {
        self.0
    }
}

/// The terminal side of [`VtUi`]: the user interface's entity.
#[derive(Clone, Copy, Debug, PartialEq, Eq, Structural)]
pub struct VtUiTarget(EntityId);

impl VtUiTarget {
    pub fn new(target: EntityId) -> (t: VtUiTarget)
        ensures
            t.spec_target() == target,
    {
        VtUiTarget(target)
    }

    pub closed spec fn spec_target(&self) -> EntityId {
        self.0
    }

    pub fn target(&self) -> (t: EntityId)
        ensures
            t == self.spec_target(),
    {
        self.0
    }
}

/// The [`VtUi`] side of the node that measures the width of a cell.
#[derive(Clone, Copy, Debug, PartialEq, Eq, Structural)]
pub struct VtCharWidthTarget(EntityId);

impl VtCharWidthTarget {
    pub fn new(measure: EntityId) -> (t: VtCharWidthTarget)
        ensures
            t.spec_target() == measure,
    {
        VtCharWidthTarget(measure)
    }

    pub closed spec fn spec_target(&self) -> EntityId {
        self.0
    }

    pub fn target(&self) -> (t: EntityId)
        ensures
            t == self.spec_target(),
    {
        self.0
    }
}

/// Marks the node that draws the cursor.
#[derive(Clone, Copy, Debug, PartialEq, Eq, Structural)]
pub struct VtUiCursor;

/// The shape of the cursor.
#[derive(Clone, Copy, Debug, PartialEq, Eq, Structural)]
pub enum VtCursorStyle {
    Block,
    Beam,
    Underline,
}

impl Default for VtCursorStyle {
    fn default() -> (s: VtCursorStyle)
        ensures
            s == VtCursorStyle::Block,
    {
        VtCursorStyle::Block
    }
}

/// Whether the cursor shows after a frame. A cursor hidden by DECTCEM
/// never shows; with blinking off (a zero strobe period) it always
/// shows; otherwise it flips each time the strobe period elapses.
pub open spec fn spec_cursor_visible(dectcem: bool, blink_off: bool, period_elapsed: bool, visible: bool) -> bool {
    if !dectcem {
        false
    } else if blink_off {
        true
    } else if period_elapsed {
        !visible
    } else {
        visible
    }
}

/// A hidden cursor never shows; with blinking off the cursor always
/// shows; with blinking on, the cursor's visibility changes exactly on
/// the frames where the strobe period elapses.
pub proof fn lemma_cursor_blink(dectcem: bool, blink_off: bool, period_elapsed: bool, visible: bool)
    ensures
        !dectcem ==> !spec_cursor_visible(dectcem, blink_off, period_elapsed, visible),
        dectcem && blink_off ==> spec_cursor_visible(dectcem, blink_off, period_elapsed, visible),
        dectcem && !blink_off ==> (spec_cursor_visible(dectcem, blink_off, period_elapsed, visible) != visible)
            == period_elapsed,
{
}

/// Whether the cursor shows after a frame (see [`spec_cursor_visible`]).
pub fn flash_cursor(dectcem: bool, blink_off: bool, period_elapsed: bool, visible: bool) -> (b: bool)
    ensures
        b == spec_cursor_visible(dectcem, blink_off, period_elapsed, visible),
{
    if !dectcem {
        false
    } else if blink_off {
        true
    } else if period_elapsed {
        !visible
    } else {
        visible
    }
}

/// A run of text in one style.
#[derive(Clone, Debug)]
pub struct TextRun {
    pub text: Vec<char>,
    pub style: VtCellStyle,
}

/// The abstract run: its characters and style.
pub open spec fn run_view(r: TextRun) -> (Seq<char>, VtCellStyle) {
    (r.text@, r.style)
}

/// The cells one row shows: `cols` cells of the line from `offset`,
/// without newlines, padded with default cells to `cols`.
pub open spec fn row_cells(cells: Seq<VtCell>, offset: int, cols: int) -> Seq<VtCell> {
    let start = if offset <= cells.len() { offset } else { cells.len() as int };
    let end = if start + cols <= cells.len() { start + cols } else { cells.len() as int };
    let kept = cells.subrange(start, end).filter(not_newline());
    pad_to(kept, cols)
}

/// Whether a cell holds anything but a newline.
pub open spec fn not_newline() -> spec_fn(VtCell) -> bool {
    |c: VtCell| c.value != '\n'
}

/// `s` padded with default cells to `n` entries, if shorter.
pub open spec fn pad_to(s: Seq<VtCell>, n: int) -> Seq<VtCell> {
    if s.len() < n {
        s + Seq::new((n - s.len()) as nat, |i: int| default_cell())
    } else {
        s
    }
}

/// Adjacent cells of one style merged into runs, in order.
pub open spec fn coalesce(cells: Seq<VtCell>) -> Seq<(Seq<char>, VtCellStyle)>
    decreases cells.len(),
{
    if cells.len() == 0 {
        Seq::empty()
    } else {
        let rest = coalesce(cells.drop_last());
        let c = cells.last();
        if rest.len() > 0 && rest.last().1 == c.style {
            rest.update(rest.len() - 1, (rest.last().0.push(c.value), c.style))
        } else {
            rest.push((seq![c.value], c.style))
        }
    }
}

/// Padding adds default cells only: the padded cells start with `s`,
/// run to `n` cells when `s` is shorter, and every added cell is a blank
/// in the default style.
pub proof fn lemma_pad_to(s: Seq<VtCell>, n: int)
    ensures
        pad_to(s, n).len() == (if s.len() < n { n } else { s.len() as int }),
        forall|k: int| 0 <= k < s.len() ==> #[trigger] pad_to(s, n)[k] == s[k],
        forall|k: int| s.len() <= k < n ==> #[trigger] pad_to(s, n)[k] == default_cell(),
{
}

/// A row shows the line's cells from its offset, newlines left out, and
/// beyond the line's content only default cells, up to `cols` cells.
pub proof fn lemma_row_cells_pad(cells: Seq<VtCell>, offset: int, cols: int)
    ensures
        ({
            let start = if offset <= cells.len() { offset } else { cells.len() as int };
            let end = if start + cols <= cells.len() { start + cols } else { cells.len() as int };
            let kept = cells.subrange(start, end).filter(not_newline());
            let r = row_cells(cells, offset, cols);
            &&& r.len() == (if kept.len() < cols { cols } else { kept.len() as int })
            &&& forall|k: int| 0 <= k < kept.len() ==> #[trigger] r[k] == kept[k]
            &&& forall|k: int| kept.len() <= k < cols ==> #[trigger] r[k] == default_cell()
        }),
{
    let start = if offset <= cells.len() { offset } else { cells.len() as int };
    let end = if start + cols <= cells.len() { start + cols } else { cells.len() as int };
    lemma_pad_to(cells.subrange(start, end).filter(not_newline()), cols);
}

/// The characters of `runs`, one run after the other.
pub open spec fn flatten_runs(runs: Seq<(Seq<char>, VtCellStyle)>) -> Seq<char>
    decreases runs.len(),
{
    if runs.len() == 0 {
        Seq::empty()
    } else {
        flatten_runs(runs.drop_last()) + runs.last().0
    }
}

/// The characters of `cells`.
pub open spec fn cell_values(cells: Seq<VtCell>) -> Seq<char> {
    cells.map_values(|c: VtCell| c.value)
}

/// Merging cells into runs loses and reorders nothing: the runs spell
/// the cells' characters in order, no run is empty, every character of a
/// run has the run's style, and neighbouring runs differ in style.
pub proof fn lemma_coalesce(cells: Seq<VtCell>)
    ensures
        flatten_runs(coalesce(cells)) == cell_values(cells),
        forall|i: int| 0 <= i < coalesce(cells).len() ==> #[trigger] coalesce(cells)[i].0.len() > 0,
        forall|i: int| 0 <= i < coalesce(cells).len() - 1 ==> #[trigger] coalesce(cells)[i].1 != coalesce(cells)[i + 1].1,
        coalesce(cells).len() <= cells.len(),
        cells.len() > 0 ==> coalesce(cells).len() > 0 && coalesce(cells).last().1 == cells.last().style,
    decreases cells.len(),
{
    if cells.len() == 0 {
        assert(cell_values(cells) =~= Seq::<char>::empty());
    } else {
        let rest = coalesce(cells.drop_last());
        let c = cells.last();
        lemma_coalesce(cells.drop_last());
        assert(cell_values(cells) =~= cell_values(cells.drop_last()).push(c.value));
        if rest.len() > 0 && rest.last().1 == c.style {
            let r2 = rest.update(rest.len() - 1, (rest.last().0.push(c.value), c.style));
            assert(r2.drop_last() =~= rest.drop_last());
            assert(flatten_runs(rest) == flatten_runs(rest.drop_last()) + rest.last().0);
            assert(flatten_runs(r2) =~= flatten_runs(rest).push(c.value));
            assert forall|i: int| 0 <= i < r2.len() - 1 implies #[trigger] r2[i].1 != r2[i + 1].1 by {
                assert(rest[i].1 != rest[i + 1].1);
            }
        } else {
            let r2 = rest.push((seq![c.value], c.style));
            assert(r2.drop_last() =~= rest);
            assert(flatten_runs(r2) =~= flatten_runs(rest).push(c.value));
            assert forall|i: int| 0 <= i < r2.len() - 1 implies #[trigger] r2[i].1 != r2[i + 1].1 by {
                if i < rest.len() - 1 {
                    assert(rest[i].1 != rest[i + 1].1);
                }
            }
        }
    }
}

/// `runs` with a newline added to the last run unless it ends with one.
pub open spec fn end_line(runs: Seq<(Seq<char>, VtCellStyle)>) -> Seq<(Seq<char>, VtCellStyle)> {
    if runs.len() > 0 && !(runs.last().0.len() > 0 && runs.last().0.last() == '\n') {
        runs.update(runs.len() - 1, (runs.last().0.push('\n'), runs.last().1))
    } else {
        runs
    }
}

/// The runs that show one row of a line.
pub open spec fn row_runs(cells: Seq<VtCell>, offset: int, cols: int) -> Seq<(Seq<char>, VtCellStyle)> {
    end_line(coalesce(row_cells(cells, offset, cols)))
}

/// `n` spaces.
pub open spec fn spaces(n: int) -> Seq<char> {
    Seq::new(n as nat, |i: int| ' ')
}

/// The run that stands for a viewport entry without a row: `cols`
/// spaces in the default style.
pub open spec fn blank_row_run(cols: int) -> (Seq<char>, VtCellStyle) {
    (spaces(cols), default_style())
}

/// The run that pads the grid below the viewport rows: `cols` spaces and
/// a newline, in the default style.
pub open spec fn padding_run(cols: int) -> (Seq<char>, VtCellStyle) {
    (spaces(cols).push('\n'), default_style())
}

/// What a viewport entry shows: no row at all, a row whose line is
/// missing, or the row starting at `offset` of line `line`.
#[derive(Clone, Copy, Debug, PartialEq, Eq, Structural)]
pub enum ViewportEntry {
    NoRow,
    MissingLine,
    Row { offset: usize, line: usize },
}

/// The runs of the grid: the runs of each viewport entry in order (a
/// missing line shows nothing), then one padding run for each row the
/// entries leave empty.
pub open spec fn grid_runs(entries: Seq<ViewportEntry>, lines: Seq<Seq<VtCell>>, cols: int, rows: int) -> Seq<(Seq<char>, VtCellStyle)> {
    entries_runs(entries, lines, cols) + Seq::new(
        (if entries.len() < rows { rows - entries.len() } else { 0 }) as nat,
        |i: int| padding_run(cols),
    )
}

/// The runs of the viewport entries, in order.
pub open spec fn entries_runs(entries: Seq<ViewportEntry>, lines: Seq<Seq<VtCell>>, cols: int) -> Seq<(Seq<char>, VtCellStyle)>
    decreases entries.len(),
{
    if entries.len() == 0 {
        Seq::empty()
    } else {
        let rest = entries_runs(entries.drop_last(), lines, cols);
        match entries.last() {
            ViewportEntry::NoRow => rest.push(blank_row_run(cols)),
            ViewportEntry::MissingLine => rest,
            ViewportEntry::Row { offset, line } => if line < lines.len() {
                rest + row_runs(lines[line as int], offset as int, cols)
            } else {
                rest
            },
        }
    }
}

/// `s` padded with default cells to `n` entries, if shorter.
pub fn pad_cells(s: Vec<VtCell>, n: usize) -> (out: Vec<VtCell>)
    ensures
        out@ == pad_to(s@, n as int),
{
    let mut out = s;
    let ghost orig = out@;
    if out.len() < n {
        let k = n - out.len();
        let mut i: usize = 0;
        while i < k
            invariant
                i <= k,
                k == n - orig.len(),
                out@ == orig + Seq::new(i as nat, |j: int| default_cell()),
            decreases k - i,
        {
            out.push(VtCell::default());
            i = i + 1;
            assert(out@ =~= orig + Seq::new(i as nat, |j: int| default_cell()));
        }
    }
    out
}

/// The cells one row shows (see [`row_cells`]).
pub fn row_cells_exec(cells: &[VtCell], offset: usize, cols: usize) -> (out: Vec<VtCell>)
    ensures
        out@ == row_cells(cells@, offset as int, cols as int),
{
    let len = cells.len();
    let start = if offset <= len { offset } else { len };
    let end = if cols <= len - start { start + cols } else { len };
    let mut kept: Vec<VtCell> = Vec::new();
    let mut j: usize = start;
    while j < end
        invariant
            start <= j <= end <= cells@.len(),
            kept@ == cells@.subrange(start as int, j as int).filter(not_newline()),
        decreases end - j,
    {
        proof {
            reveal(Seq::filter);
            assert(cells@.subrange(start as int, j + 1).drop_last() =~= cells@.subrange(start as int, j as int));
        }
        if cells[j].value != '\n' {
            kept.push(cells[j]);
        }
        j = j + 1;
    }
    pad_cells(kept, cols)
}

/// Adjacent cells of one style merged into runs (see [`coalesce`]).
pub fn coalesce_exec(cells: &Vec<VtCell>) -> (out: Vec<TextRun>)
    ensures
        out@.map_values(|r: TextRun| run_view(r)) == coalesce(cells@),
{
    let mut out: Vec<TextRun> = Vec::new();
    let mut i: usize = 0;
    while i < cells.len()
        invariant
            i <= cells@.len(),
            out@.map_values(|r: TextRun| run_view(r)) == coalesce(cells@.take(i as int)),
        decreases cells@.len() - i,
    {
        let c = cells[i];
        let ghost prev = out@.map_values(|r: TextRun| run_view(r));
        proof {
            assert(cells@.take(i + 1).drop_last() =~= cells@.take(i as int));
            assert(cells@.take(i + 1).last() == c);
        }
        let n = out.len();
        if n > 0 && out[n - 1].style == c.style {
            let mut last = out.pop().unwrap();
            last.text.push(c.value);
            out.push(last);
            assert(out@.map_values(|r: TextRun| run_view(r)) =~= prev.update(prev.len() - 1, (prev.last().0.push(c.value), c.style)));
        } else {
            let mut text: Vec<char> = Vec::new();
            text.push(c.value);
            out.push(TextRun { text, style: c.style });
            assert(out@.map_values(|r: TextRun| run_view(r)) =~= prev.push((seq![c.value], c.style)));
        }
        i = i + 1;
    }
    assert(cells@.take(cells@.len() as int) =~= cells@);
    out
}

/// `runs` with a newline added to the last run unless it ends with one
/// (see [`end_line`]).
pub fn end_line_exec(runs: &mut Vec<TextRun>)
    ensures
        final(runs)@.map_values(|r: TextRun| run_view(r)) == end_line(old(runs)@.map_values(|r: TextRun| run_view(r))),
{
    let ghost prev = runs@.map_values(|r: TextRun| run_view(r));
    let n = runs.len();
    if n > 0 {
        let k = runs[n - 1].text.len();
        if !(k > 0 && runs[n - 1].text[k - 1] == '\n') {
            let mut last = runs.pop().unwrap();
            last.text.push('\n');
            runs.push(last);
            assert(runs@.map_values(|r: TextRun| run_view(r)) =~= prev.update(prev.len() - 1, (prev.last().0.push('\n'), prev.last().1)));
        }
    }
}

/// The runs that show one row of a line (see [`row_runs`]).
pub fn row_text_runs(cells: &[VtCell], offset: usize, cols: usize) -> (out: Vec<TextRun>)
    ensures
        out@.map_values(|r: TextRun| run_view(r)) == row_runs(cells@, offset as int, cols as int),
{
    let shown = row_cells_exec(cells, offset, cols);
    let mut runs = coalesce_exec(&shown);
    end_line_exec(&mut runs);
    runs
}

/// `n` spaces, then a newline if `newline`.
fn spaces_exec(n: usize, newline: bool) -> (out: Vec<char>)
    ensures
        out@ == (if newline { spaces(n as int).push('\n') } else { spaces(n as int) }),
{
    let mut out: Vec<char> = Vec::new();
    let mut i: usize = 0;
    while i < n
        invariant
            i <= n,
            out@ == spaces(i as int),
        decreases n - i,
    {
        out.push(' ');
        i = i + 1;
        assert(out@ =~= spaces(i as int));
    }
    if newline {
        out.push('\n');
    }
    out
}

/// The runs of the grid for the viewport entries `entries` over the
/// cells of `lines`, padded to `rows` rows (see [`grid_runs`]).
pub fn refresh_ui(entries: &Vec<ViewportEntry>, lines: &Vec<Vec<VtCell>>, cols: usize, rows: usize) -> (out: Vec<TextRun>)
    ensures
        out@.map_values(|r: TextRun| run_view(r)) == grid_runs(
            entries@,
            lines@.map_values(|l: Vec<VtCell>| l@),
            cols as int,
            rows as int,
        ),
{
    let ghost lv = lines@.map_values(|l: Vec<VtCell>| l@);
    let mut out: Vec<TextRun> = Vec::new();
    let mut i: usize = 0;
    while i < entries.len()
        invariant
            i <= entries@.len(),
            lv == lines@.map_values(|l: Vec<VtCell>| l@),
            out@.map_values(|r: TextRun| run_view(r)) == entries_runs(entries@.take(i as int), lv, cols as int),
        decreases entries@.len() - i,
    {
        let ghost prev = out@.map_values(|r: TextRun| run_view(r));
        proof {
            assert(entries@.take(i + 1).drop_last() =~= entries@.take(i as int));
            assert(entries@.take(i + 1).last() == entries@[i as int]);
        }
        match entries[i] {
            ViewportEntry::NoRow => {
                let text = spaces_exec(cols, false);
                out.push(TextRun { text, style: VtCellStyle::default() });
                assert(out@.map_values(|r: TextRun| run_view(r)) =~= prev.push(blank_row_run(cols as int)));
            },
            ViewportEntry::MissingLine => {},
            ViewportEntry::Row { offset, line } => {
                if line < lines.len() {
                    let mut runs = row_text_runs(lines[line].as_slice(), offset, cols);
                    let ghost rv = runs@.map_values(|r: TextRun| run_view(r));
                    assert(lv[line as int] == lines@[line as int]@);
                    out.append(&mut runs);
                    assert(out@.map_values(|r: TextRun| run_view(r)) =~= prev + rv);
                }
            },
        }
        i = i + 1;
    }
    assert(entries@.take(entries@.len() as int) =~= entries@);
    let ghost before_pad = out@.map_values(|r: TextRun| run_view(r));
    let mut count = entries.len();
    let ghost n0 = count;
    while count < rows
        invariant
            n0 <= count,
            n0 == entries@.len(),
            count <= rows || count == n0,
            out@.map_values(|r: TextRun| run_view(r)) == before_pad + Seq::new((count - n0) as nat, |j: int| padding_run(cols as int)),
        decreases rows - count,
    {
        let ghost prev = out@.map_values(|r: TextRun| run_view(r));
        let text = spaces_exec(cols, true);
        out.push(TextRun { text, style: VtCellStyle::default() });
        assert(out@.map_values(|r: TextRun| run_view(r)) =~= prev.push(padding_run(cols as int)));
        count = count + 1;
        assert(out@.map_values(|r: TextRun| run_view(r)) =~= before_pad + Seq::new((count - n0) as nat, |j: int| padding_run(cols as int)));
    }
    assert(out@.map_values(|r: TextRun| run_view(r)) =~= grid_runs(entries@, lv, cols as int, rows as int));
    out
}

} // verus!
