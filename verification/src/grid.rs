//! A transient grid over the terminal buffer. It is built from the
//! terminal's lines and rows, modified by the ANSI performer, and turned
//! back into updates of the terminal's data.
use vstd::prelude::*;

use crate::style::{blank_cell, default_cell, styled_cell, VtCell, VtCellStyle};
use crate::term::{VtCursor, VtLine, VtRow, VtScrollPos};
use crate::EntityId;

verus! {

/// No line of the grid grows beyond this many cells. It is a quarter of
/// the address space, more than any vector of cells can hold.
pub const MAX_LINE_CELLS: usize = usize::MAX / 4;

/// A value of the grid that is either still the one read from the
/// terminal (`Borrowed`, with the entity it came from) or one the grid
/// has created or changed (`Owned`, with the entity it will be stored on,
/// if there is one yet).
pub enum MaybeRef<T> {
    Owned(Option<EntityId>, T),
    Borrowed(EntityId, T),
}

impl<T> MaybeRef<T> {
    pub open spec fn spec_value(self) -> T {
        match self {
            MaybeRef::Owned(_, t) => t,
            MaybeRef::Borrowed(_, t) => t,
        }
    }

    pub open spec fn spec_entity(self) -> Option<EntityId> {
        match self {
            MaybeRef::Owned(e, _) => e,
            MaybeRef::Borrowed(e, _) => Some(e),
        }
    }

    pub fn value(&self) -> (v: &T)
        ensures
            *v == self.spec_value(),
    {
        match self {
            MaybeRef::Owned(_, t) => t,
            MaybeRef::Borrowed(_, t) => t,
        }
    }

    pub fn entity(&self) -> (e: Option<EntityId>)
        ensures
            e == self.spec_entity(),
    {
        match self {
            MaybeRef::Owned(e, _) => *e,
            MaybeRef::Borrowed(e, _) => Some(*e),
        }
    }

    pub fn is_owned(&self) -> (b: bool)
        ensures
            b == (self is Owned),
    {
        match self {
            MaybeRef::Owned(_, _) => true,
            MaybeRef::Borrowed(_, _) => false,
        }
    }
}

/// Position of a visible row: the line it belongs to and its index
/// among that line's rows.
#[derive(Clone, Copy, Debug, PartialEq, Eq, Structural)]
pub struct VisibleRowIndex {
    pub line_idx: usize,
    pub row_idx: usize,
}

pub open spec fn vri(line_idx: int, row_idx: int) -> VisibleRowIndex {
    VisibleRowIndex { line_idx: line_idx as usize, row_idx: row_idx as usize }
}

/// One row of a grid line.
pub struct GridRow {
    pub row: MaybeRef<VtRow>,
}

impl GridRow {
    /// A new row starting at `offset`, not yet stored anywhere.
    pub fn new(offset: usize) -> (r: GridRow)
        ensures
            r.row is Owned,
            r.row.spec_entity() is None,
            r.row.spec_value().offset == offset,
    {
        GridRow { row: MaybeRef::Owned(None, VtRow::new(EntityId::placeholder(), offset)) }
    }
}

/// One logical line of the grid with its rows.
pub struct GridLine {
    pub line: MaybeRef<VtLine>,
    pub rows: Vec<GridRow>,
}

/// The cells of a grid line.
pub open spec fn line_cells(l: GridLine) -> Seq<VtCell> {
    l.line.spec_value().spec_cells()
}

/// The offset at which a grid row starts in its line.
pub open spec fn row_offset(r: GridRow) -> usize {
    r.row.spec_value().offset
}

/// A line the grid has just created: empty, owned by `term_id`, not yet
/// stored, with a single row at offset 0 that is not stored either.
pub open spec fn is_fresh_line(l: GridLine, term_id: EntityId) -> bool {
    &&& l.line is Owned
    &&& l.line.spec_entity() is None
    &&& line_cells(l) == Seq::<VtCell>::empty()
    &&& l.line.spec_value().spec_target() == term_id
    &&& l.rows@.len() == 1
    &&& l.rows@[0].row is Owned
    &&& l.rows@[0].row.spec_entity() is None
    &&& row_offset(l.rows@[0]) == 0
}

impl GridLine {
    pub fn new(term_id: EntityId, rows: Vec<GridRow>) -> (l: GridLine)
        ensures
            l.line is Owned,
            l.line.spec_entity() is None,
            line_cells(l) == Seq::<VtCell>::empty(),
            l.line.spec_value().spec_target() == term_id,
            l.rows@ == rows@,
    {
        GridLine { line: MaybeRef::Owned(None, VtLine::new(term_id)), rows }
    }

    /// A fresh line with a single row at offset 0.
    pub fn fresh(term_id: EntityId) -> (l: GridLine)
        ensures
            is_fresh_line(l, term_id),
    {
        let mut rows: Vec<GridRow> = Vec::new();
        rows.push(GridRow::new(0));
        GridLine::new(term_id, rows)
    }
}

/// Every position of every row, line by line, in order.
pub open spec fn all_rows(lines: Seq<GridLine>) -> Seq<VisibleRowIndex>
    decreases lines.len(),
{
    if lines.len() == 0 {
        Seq::<VisibleRowIndex>::empty()
    } else {
        let k = lines.len() - 1;
        all_rows(lines.drop_last()) + Seq::new(lines[k].rows@.len(), |j: int| vri(k, j))
    }
}

/// The end (exclusive) of the visible window over `n` rows.
pub open spec fn window_end(n: int, scroll_pos: int) -> int {
    if scroll_pos >= n {
        0
    } else {
        n - scroll_pos
    }
}

/// The start of the visible window over `n` rows.
pub open spec fn window_start(n: int, scroll_pos: int, rows: int) -> int {
    let end = window_end(n, scroll_pos);
    if end >= rows {
        end - rows
    } else {
        0
    }
}

/// The visible rows: the last `rows` positions once the newest
/// `scroll_pos` positions are skipped, oldest first.
pub open spec fn visible_of(lines: Seq<GridLine>, scroll_pos: usize, rows: usize) -> Seq<VisibleRowIndex> {
    let all = all_rows(lines);
    all.subrange(
        window_start(all.len() as int, scroll_pos as int, rows as int),
        window_end(all.len() as int, scroll_pos as int),
    )
}

/// The cells after writing `cell` at `pos`: an existing cell is
/// overwritten; past the end, the line is padded with default cells and
/// the new cell appended.
pub open spec fn written_cells(cells: Seq<VtCell>, pos: int, cell: VtCell) -> Seq<VtCell> {
    if pos < cells.len() {
        cells.update(pos, cell)
    } else {
        cells + Seq::new((pos - cells.len()) as nat, |i: int| default_cell()) + seq![cell]
    }
}

/// The abstract state of a grid.
pub struct GridView {
    pub lines: Seq<GridLine>,
    pub viewport: Seq<EntityId>,
    pub cols: usize,
    pub rows: usize,
    pub scroll_pos: usize,
    pub cursor: VtCursor,
    pub term_id: EntityId,
}

/// The grid holds: a non-empty viewport, the cursor inside it (possibly
/// one past the last column or row), lines within [`MAX_LINE_CELLS`], and
/// every row starting within its line.
pub open spec fn grid_wf(g: GridView) -> bool {
    &&& 0 < g.cols <= MAX_LINE_CELLS
    &&& 0 < g.rows <= MAX_LINE_CELLS
    &&& g.cursor.row <= g.rows
    &&& g.cursor.col <= g.cols
    &&& lines_wf(g.lines)
}

/// Lines within [`MAX_LINE_CELLS`] whose rows all start within the line.
pub open spec fn lines_wf(lines: Seq<GridLine>) -> bool {
    forall|i: int| 0 <= i < lines.len() ==> #[trigger] line_wf(lines[i])
}

pub open spec fn line_wf(l: GridLine) -> bool {
    &&& line_cells(l).len() <= MAX_LINE_CELLS
    &&& forall|j: int| 0 <= j < l.rows@.len() ==> #[trigger] row_offset(l.rows@[j]) <= line_cells(l).len()
}

/// The cursor after moving one line down, clamped to the last row.
pub open spec fn cursor_down(c: VtCursor, rows: usize) -> VtCursor {
    VtCursor { row: if c.row + 1 <= rows - 1 { (c.row + 1) as usize } else { (rows - 1) as usize }, ..c }
}

/// The cursor after moving one line up, stopping at the first row.
pub open spec fn cursor_up(c: VtCursor) -> VtCursor {
    VtCursor { row: if c.row == 0 { 0 } else { (c.row - 1) as usize }, ..c }
}

/// The cursor after advancing one column. Past the last column it
/// either clamps (no wrap), latches a pending wrap, or, with a wrap
/// already pending, moves to the start of the next line.
pub open spec fn cursor_forward(c: VtCursor, cols: usize, rows: usize, wrap: bool) -> VtCursor {
    let col = if c.col + 1 <= cols { (c.col + 1) as usize } else { cols };
    if col >= cols {
        if wrap {
            if c.pending_wrap {
                cursor_down(VtCursor { col: 0, ..c }, rows)
            } else {
                VtCursor { col, pending_wrap: true, ..c }
            }
        } else {
            VtCursor { col: (cols - 1) as usize, ..c }
        }
    } else {
        VtCursor { col, ..c }
    }
}

/// The cursor after moving one column back. At the first column with
/// `wrap` it moves to the last column of the previous line.
pub open spec fn cursor_back(c: VtCursor, cols: usize, wrap: bool) -> VtCursor {
    if c.col == 0 && wrap {
        VtCursor { col: (cols - 1) as usize, ..cursor_up(c) }
    } else {
        VtCursor { col: if c.col == 0 { 0 } else { (c.col - 1) as usize }, ..c }
    }
}

/// A transient grid. Used to modify the terminal's data and
/// reconstructed on each pass.
pub struct Grid {
    lines: Vec<GridLine>,
    viewport_entities: Vec<EntityId>,
    cols: usize,
    rows: usize,
    scroll_pos: usize,
    cursor: VtCursor,
    term_id: EntityId,
}

impl View for Grid {
    type V = GridView;

    closed spec fn view(&self) -> GridView {
        GridView {
            lines: self.lines@,
            viewport: self.viewport_entities@,
            cols: self.cols,
            rows: self.rows,
            scroll_pos: self.scroll_pos,
            cursor: self.cursor,
            term_id: self.term_id,
        }
    }
}

impl Grid {
    /// The grid is well formed.
    pub open spec fn wf(&self) -> bool {
        grid_wf(self@)
    }

    /// The visible rows of the grid.
    pub open spec fn spec_visible_rows(&self) -> Seq<VisibleRowIndex> {
        visible_of(self@.lines, self@.scroll_pos, self@.rows)
    }

    /// Builds a grid over the given lines (each with its entity and rows,
    /// each row with its entity), viewport, size, scroll position and
    /// cursor of terminal `term_id`.
    pub fn new(
        term_id: EntityId,
        lines: Vec<GridLine>,
        viewport: Vec<EntityId>,
        cols: usize,
        rows: usize,
        scroll_pos: usize,
        cursor: VtCursor,
    ) -> (g: Grid)
        requires
            grid_wf(
                GridView { lines: lines@, viewport: viewport@, cols, rows, scroll_pos, cursor, term_id },
            ),
        ensures
            g@ == (GridView { lines: lines@, viewport: viewport@, cols, rows, scroll_pos, cursor, term_id }),
            g.wf(),
    {
        Grid { lines, viewport_entities: viewport, cols, rows, scroll_pos, cursor, term_id }
    }

    pub fn cursor(&self) -> (c: VtCursor)
        ensures
            c == self@.cursor,
    {
        self.cursor
    }

    pub fn lines(&self) -> (l: &Vec<GridLine>)
        ensures
            l@ == self@.lines,
    {
        &self.lines
    }

    pub fn cols(&self) -> (c: usize)
        ensures
            c == self@.cols,
    {
        self.cols
    }

    pub fn rows(&self) -> (r: usize)
        ensures
            r == self@.rows,
    {
        self.rows
    }

    pub fn scroll_pos(&self) -> (p: usize)
        ensures
            p == self@.scroll_pos,
    {
        self.scroll_pos
    }

    pub fn term_id(&self) -> (t: EntityId)
        ensures
            t == self@.term_id,
    {
        self.term_id
    }

    /// Scrolls the viewport by `dir` rows, saturating at 0 and `usize::MAX`.
    pub fn scroll_viewport(&mut self, dir: isize)
        ensures
            final(self)@ == (GridView { scroll_pos: saturating_add_signed(old(self)@.scroll_pos, dir), ..old(self)@ }),
    {
        self.scroll_pos = add_signed_saturating(self.scroll_pos, dir);
    }

    pub fn increment_char(&mut self, wrap: bool)
        requires
            old(self).wf(),
        ensures
            final(self).wf(),
            final(self)@ == (GridView {
                cursor: cursor_forward(old(self)@.cursor, old(self)@.cols, old(self)@.rows, wrap),
                ..old(self)@
            }),
    {
        self.cursor.col = if self.cursor.col + 1 <= self.cols { self.cursor.col + 1 } else { self.cols };
        if self.cursor.col >= self.cols {
            if wrap {
                if self.cursor.pending_wrap {
                    self.cursor.col = 0;
                    self.increment_line();
                } else {
                    self.cursor.pending_wrap = true;
                }
            } else {
                self.cursor.col = self.cols - 1;
            }
        }
    }

    pub fn decrement_char(&mut self, wrap: bool)
        requires
            old(self).wf(),
        ensures
            final(self).wf(),
            final(self)@ == (GridView { cursor: cursor_back(old(self)@.cursor, old(self)@.cols, wrap), ..old(self)@ }),
    {
        if self.cursor.col == 0 && wrap {
            self.decrement_line();
            self.cursor.col = self.cols - 1;
        } else {
            self.cursor.col = if self.cursor.col == 0 { 0 } else { self.cursor.col - 1 };
        }
    }

    pub fn increment_line(&mut self)
        requires
            old(self)@.rows > 0,
        ensures
            final(self)@ == (GridView { cursor: cursor_down(old(self)@.cursor, old(self)@.rows), ..old(self)@ }),
    {
        self.cursor.row = if self.cursor.row < self.rows - 1 { self.cursor.row + 1 } else { self.rows - 1 };
    }

    pub fn decrement_line(&mut self)
        ensures
            final(self)@ == (GridView { cursor: cursor_up(old(self)@.cursor), ..old(self)@ }),
    {
        self.cursor.row = if self.cursor.row == 0 { 0 } else { self.cursor.row - 1 };
    }
}

/// The window of `all` that the viewport shows.
pub open spec fn window_of(all: Seq<VisibleRowIndex>, scroll_pos: usize, rows: usize) -> Seq<VisibleRowIndex> {
    all.subrange(
        window_start(all.len() as int, scroll_pos as int, rows as int),
        window_end(all.len() as int, scroll_pos as int),
    )
}

/// How many fresh lines a write must add so that the viewport has a row
/// under the cursor's `row`.
pub open spec fn lines_needed(all: Seq<VisibleRowIndex>, scroll_pos: usize, rows: usize, row: usize) -> int {
    let v = window_of(all, scroll_pos, rows).len();
    if v <= row {
        row + 1 - v
    } else {
        0
    }
}

/// The row a write lands in: the visible row under the cursor, or the
/// single row of a fresh line added below `n` existing lines.
pub open spec fn target_of(all: Seq<VisibleRowIndex>, n: int, scroll_pos: usize, rows: usize, row: usize) -> VisibleRowIndex {
    let v = window_of(all, scroll_pos, rows);
    if row < v.len() {
        v[row as int]
    } else {
        vri(n + (row - v.len()), 0)
    }
}

/// Whether the grid has a wrap pending, as 0 or 1 lines to add.
pub open spec fn wrap_lines(g: GridView) -> int {
    if g.cursor.pending_wrap {
        1
    } else {
        0
    }
}

/// The cursor once a pending wrap has moved it to the next line.
pub open spec fn cursor_after_wrap(g: GridView) -> VtCursor {
    if g.cursor.pending_wrap {
        VtCursor { pending_wrap: false, ..cursor_down(VtCursor { col: 0, ..g.cursor }, g.rows) }
    } else {
        g.cursor
    }
}

/// All row positions once a pending wrap has added its fresh line.
pub open spec fn rows_after_wrap(g: GridView) -> Seq<VisibleRowIndex> {
    if g.cursor.pending_wrap {
        all_rows(g.lines).push(vri(g.lines.len() as int, 0))
    } else {
        all_rows(g.lines)
    }
}

/// Number of lines a write adds in all.
pub open spec fn write_added(g: GridView) -> int {
    wrap_lines(g) + lines_needed(rows_after_wrap(g), g.scroll_pos, g.rows, cursor_after_wrap(g).row)
}

/// The row a write of `g` lands in.
pub open spec fn write_target(g: GridView) -> VisibleRowIndex {
    target_of(
        rows_after_wrap(g),
        g.lines.len() + wrap_lines(g),
        g.scroll_pos,
        g.rows,
        cursor_after_wrap(g).row,
    )
}

/// The cell position in its line where a write of `g` lands.
pub open spec fn write_pos(g: GridView) -> int {
    let t = write_target(g);
    let offset = if t.line_idx < g.lines.len() {
        row_offset(g.lines[t.line_idx as int].rows@[t.row_idx as int]) as int
    } else {
        0
    };
    offset + cursor_after_wrap(g).col
}

/// The cells of the target line before a write of `g` changes them.
pub open spec fn write_before(g: GridView) -> Seq<VtCell> {
    let t = write_target(g);
    if t.line_idx < g.lines.len() {
        line_cells(g.lines[t.line_idx as int])
    } else {
        Seq::<VtCell>::empty()
    }
}

/// The outcome of writing `cell` into the grid `g`, as `h`: a pending
/// wrap moves the cursor to the next line and starts a fresh line; fresh
/// lines are added until the viewport has a row under the cursor; the
/// cell is written at the cursor's column of that row (unless that
/// would grow the line past [`MAX_LINE_CELLS`]); when the line grows,
/// its later rows move right by the growth; nothing else changes.
pub open spec fn written(g: GridView, cell: VtCell, h: GridView) -> bool {
    let n = g.lines.len() as int;
    let m = n + write_added(g);
    let t = write_target(g);
    let li = t.line_idx as int;
    let ri = t.row_idx as int;
    let pos = write_pos(g);
    let before = write_before(g);
    let after = if pos < MAX_LINE_CELLS { written_cells(before, pos, cell) } else { before };
    let growth = after.len() - before.len();
    &&& h == GridView { lines: h.lines, cursor: cursor_after_wrap(g), ..g }
    &&& h.lines.len() == m
    &&& 0 <= li < m
    &&& forall|i: int| 0 <= i < n && i != li ==> h.lines[i] == #[trigger] g.lines[i]
    &&& forall|i: int| n <= i < m && i != li ==> is_fresh_line(#[trigger] h.lines[i], g.term_id)
    &&& line_cells(h.lines[li]) == after
    &&& h.lines[li].rows@.len() == (if li < n { g.lines[li].rows@.len() } else { 1 })
    &&& if li < n {
        &&& if pos < MAX_LINE_CELLS {
            &&& h.lines[li].line is Owned
            &&& h.lines[li].line.spec_entity() == g.lines[li].line.spec_entity()
            &&& h.lines[li].line.spec_value().spec_target() == g.term_id
        } else {
            h.lines[li].line == g.lines[li].line
        }
        &&& forall|j: int| 0 <= j < h.lines[li].rows@.len() ==> {
            let old_row = #[trigger] g.lines[li].rows@[j];
            let new_row = h.lines[li].rows@[j];
            if j > ri && growth > 0 {
                &&& new_row.row is Owned
                &&& new_row.row.spec_entity() == old_row.row.spec_entity()
                &&& new_row.row.spec_value().line == old_row.row.spec_value().line
                &&& row_offset(new_row) == row_offset(old_row) + growth
            } else {
                new_row == old_row
            }
        }
    } else {
        &&& ri == 0
        &&& h.lines[li].line is Owned
        &&& h.lines[li].line.spec_entity() is None
        &&& h.lines[li].line.spec_value().spec_target() == g.term_id
        &&& h.lines[li].rows@[0].row is Owned
        &&& h.lines[li].rows@[0].row.spec_entity() is None
        &&& row_offset(h.lines[li].rows@[0]) == 0
    }
}

/// Reading back a write: after a write that fits within
/// [`MAX_LINE_CELLS`], the written line holds the cell at the write's
/// position, and every other cell it held before is unchanged.
pub proof fn lemma_write_then_read(g: GridView, cell: VtCell, h: GridView)
    requires
        written(g, cell, h),
        write_pos(g) < MAX_LINE_CELLS,
    ensures
        line_cells(h.lines[write_target(g).line_idx as int])[write_pos(g)] == cell,
        forall|k: int|
            0 <= k < write_before(g).len() && k != write_pos(g) ==> #[trigger] line_cells(
                h.lines[write_target(g).line_idx as int],
            )[k] == write_before(g)[k],
        line_cells(h.lines[write_target(g).line_idx as int]).len() >= write_before(g).len(),
{
    let before = write_before(g);
    let pos = write_pos(g);
    let after = written_cells(before, pos, cell);
    if pos >= before.len() {
        assert(after[pos] == cell);
    }
}

/// Writing past the end of a line pads the gap with default cells,
/// whatever the style of the written cell: the line ends with the cell at
/// the write's position, and every position between the old end and the
/// write holds a blank in the default style.
pub proof fn lemma_write_pads_with_default(g: GridView, cell: VtCell, h: GridView)
    requires
        written(g, cell, h),
        write_before(g).len() < write_pos(g) < MAX_LINE_CELLS,
    ensures
        line_cells(h.lines[write_target(g).line_idx as int]).len() == write_pos(g) + 1,
        line_cells(h.lines[write_target(g).line_idx as int])[write_pos(g)] == cell,
        forall|k: int|
            write_before(g).len() <= k < write_pos(g) ==> #[trigger] line_cells(
                h.lines[write_target(g).line_idx as int],
            )[k] == default_cell(),
        forall|k: int|
            0 <= k < write_before(g).len() ==> #[trigger] line_cells(h.lines[write_target(g).line_idx as int])[k]
                == write_before(g)[k],
{
}

/// `all_rows` of a prefix grows by the rows of the next line.
pub proof fn lemma_all_rows_take(lines: Seq<GridLine>, i: int)
    requires
        0 <= i < lines.len(),
    ensures
        all_rows(lines.take(i + 1)) == all_rows(lines.take(i)) + Seq::new(
            lines[i].rows@.len(),
            |j: int| vri(i, j),
        ),
{
    assert(lines.take(i + 1).drop_last() =~= lines.take(i));
}

/// Appending a line appends the positions of its rows.
pub proof fn lemma_all_rows_push(lines: Seq<GridLine>, l: GridLine)
    ensures
        all_rows(lines.push(l)) == all_rows(lines) + Seq::new(l.rows@.len(), |j: int| vri(lines.len() as int, j)),
{
    assert(lines.push(l).drop_last() =~= lines);
}

/// Every position of `all_rows` names an existing row.
pub proof fn lemma_all_rows_bounds(lines: Seq<GridLine>)
    requires
        lines.len() <= usize::MAX,
    ensures
        forall|k: int|
            0 <= k < all_rows(lines).len() ==> {
                let v = #[trigger] all_rows(lines)[k];
                &&& v.line_idx < lines.len()
                &&& v.row_idx < lines[v.line_idx as int].rows@.len()
            },
    decreases lines.len(),
{
    if lines.len() > 0 {
        let k = lines.len() - 1;
        let init = lines.drop_last();
        lemma_all_rows_bounds(init);
        assert forall|q: int| 0 <= q < all_rows(lines).len() implies {
            let v = #[trigger] all_rows(lines)[q];
            &&& v.line_idx < lines.len()
            &&& v.row_idx < lines[v.line_idx as int].rows@.len()
        } by {
            if q < all_rows(init).len() {
                assert(all_rows(lines)[q] == all_rows(init)[q]);
                assert(init[all_rows(init)[q].line_idx as int] == lines[all_rows(init)[q].line_idx as int]);
            } else {
                let j = q - all_rows(init).len();
                assert(all_rows(lines)[q] == vri(k, j));
            }
        }
    }
}

/// `all_rows` only depends on how many rows each line has.
pub proof fn lemma_all_rows_same_shape(a: Seq<GridLine>, b: Seq<GridLine>)
    requires
        a.len() == b.len(),
        forall|i: int| 0 <= i < a.len() ==> (#[trigger] a[i]).rows@.len() == b[i].rows@.len(),
    ensures
        all_rows(a) == all_rows(b),
    decreases a.len(),
{
    if a.len() > 0 {
        lemma_all_rows_same_shape(a.drop_last(), b.drop_last());
        assert(Seq::new(a.last().rows@.len(), |j: int| vri(a.len() - 1, j)) =~= Seq::new(
            b.last().rows@.len(),
            |j: int| vri(b.len() - 1, j),
        ));
    }
}

impl Grid {
    /// Returns the visible rows, oldest first: the last `rows` row
    /// positions once the newest `scroll_pos` are skipped.
    pub fn visible_rows(&self) -> (v: Vec<VisibleRowIndex>)
        ensures
            v@ == self.spec_visible_rows(),
    {
        let mut all: Vec<VisibleRowIndex> = Vec::new();
        let mut li: usize = 0;
        while li < self.lines.len()
            invariant
                li <= self.lines@.len(),
                all@ == all_rows(self.lines@.take(li as int)),
            decreases self.lines@.len() - li,
        {
            let n = self.lines[li].rows.len();
            let mut ri: usize = 0;
            while ri < n
                invariant
                    li < self.lines@.len(),
                    n == self.lines@[li as int].rows@.len(),
                    ri <= n,
                    all@ == all_rows(self.lines@.take(li as int)) + Seq::new(ri as nat, |j: int| vri(li as int, j)),
                decreases n - ri,
            {
                all.push(VisibleRowIndex { line_idx: li, row_idx: ri });
                assert(Seq::new((ri + 1) as nat, |j: int| vri(li as int, j)) =~= Seq::new(
                    ri as nat,
                    |j: int| vri(li as int, j),
                ).push(vri(li as int, ri as int)));
                ri = ri + 1;
            }
            proof {
                lemma_all_rows_take(self.lines@, li as int);
            }
            li = li + 1;
        }
        assert(self.lines@.take(self.lines@.len() as int) =~= self.lines@);
        let total = all.len();
        let end = if self.scroll_pos >= total { 0 } else { total - self.scroll_pos };
        let start = if end >= self.rows { end - self.rows } else { 0 };
        let mut v: Vec<VisibleRowIndex> = Vec::new();
        let mut i = start;
        while i < end
            invariant
                start <= i <= end <= all@.len(),
                v@ == all@.subrange(start as int, i as int),
            decreases end - i,
        {
            v.push(all[i]);
            assert(all@.subrange(start as int, i + 1) =~= all@.subrange(start as int, i as int).push(all@[i as int]));
            i = i + 1;
        }
        v
    }

    /// Resolves a pending wrap: the cursor moves to the start of the next
    /// line and a fresh line is appended.
    fn wrap_if_pending(&mut self)
        requires
            old(self).wf(),
        ensures
            final(self).wf(),
            final(self)@.cursor == cursor_after_wrap(old(self)@),
            final(self)@ == (GridView { lines: final(self)@.lines, cursor: final(self)@.cursor, ..old(self)@ }),
            final(self)@.lines.len() == old(self)@.lines.len() + wrap_lines(old(self)@),
            forall|i: int| 0 <= i < old(self)@.lines.len() ==> #[trigger] final(self)@.lines[i] == old(self)@.lines[i],
            old(self)@.cursor.pending_wrap ==> is_fresh_line(final(self)@.lines.last(), old(self)@.term_id),
            all_rows(final(self)@.lines) == rows_after_wrap(old(self)@),
    {
        if self.cursor.pending_wrap {
            self.cursor.col = 0;
            self.increment_line();
            self.cursor.pending_wrap = false;
            let l = GridLine::fresh(self.term_id);
            proof {
                lemma_all_rows_push(self.lines@, l);
                assert(Seq::new(l.rows@.len(), |j: int| vri(self.lines@.len() as int, j)) =~= seq![vri(self.lines@.len() as int, 0)]);
            }
            self.lines.push(l);
            proof {
                assert(line_wf(self.lines@.last()));
                assert forall|i: int| 0 <= i < self.lines@.len() implies #[trigger] line_wf(self.lines@[i]) by {
                    if i < self.lines@.len() - 1 {
                        assert(self.lines@[i] == old(self)@.lines[i]);
                    }
                }
            }
        }
    }
}

/// A copy of a slice of cells.
pub fn cells_vec(cells: &[VtCell]) -> (v: Vec<VtCell>)
    ensures
        v@ == cells@,
{
    let mut v: Vec<VtCell> = Vec::new();
    let mut i: usize = 0;
    while i < cells.len()
        invariant
            i <= cells@.len(),
            v@ == cells@.take(i as int),
        decreases cells@.len() - i,
    {
        v.push(cells[i]);
        assert(cells@.take(i + 1) =~= cells@.take(i as int).push(cells@[i as int]));
        i = i + 1;
    }
    assert(cells@.take(cells@.len() as int) =~= cells@);
    v
}

impl Grid {
    /// Adds fresh lines until the viewport has a row under the cursor,
    /// and returns that row.
    fn extend_to_cursor(&mut self) -> (t: VisibleRowIndex)
        requires
            old(self).wf(),
        ensures
            final(self).wf(),
            final(self)@ == (GridView { lines: final(self)@.lines, ..old(self)@ }),
            final(self)@.lines.len() == old(self)@.lines.len() + lines_needed(
                all_rows(old(self)@.lines),
                old(self)@.scroll_pos,
                old(self)@.rows,
                old(self)@.cursor.row,
            ),
            forall|i: int| 0 <= i < old(self)@.lines.len() ==> #[trigger] final(self)@.lines[i] == old(self)@.lines[i],
            forall|i: int|
                old(self)@.lines.len() <= i < final(self)@.lines.len() ==> is_fresh_line(
                    #[trigger] final(self)@.lines[i],
                    old(self)@.term_id,
                ),
            t == target_of(
                all_rows(old(self)@.lines),
                old(self)@.lines.len() as int,
                old(self)@.scroll_pos,
                old(self)@.rows,
                old(self)@.cursor.row,
            ),
            t.line_idx < final(self)@.lines.len(),
            t.row_idx < final(self)@.lines[t.line_idx as int].rows@.len(),
    {
        let mut visible = self.visible_rows();
        let ghost v0 = visible@;
        let n_lines = self.lines.len();
        let ghost n0 = self.lines@.len() as int;
        proof {
            lemma_all_rows_bounds(self.lines@);
        }
        assert(v0 =~= v0 + Seq::new(0, |j: int| vri(n0 + j, 0)));
        while visible.len() <= self.cursor.row
            invariant
                self.wf(),
                self@ == (GridView { lines: self@.lines, ..old(self)@ }),
                n0 == old(self)@.lines.len(),
                v0 == window_of(all_rows(old(self)@.lines), old(self)@.scroll_pos, old(self)@.rows),
                n0 <= self@.lines.len(),
                self@.lines.len() - n0 > 0 ==> visible@.len() <= self@.cursor.row + 1,
                visible@ == v0 + Seq::new((self@.lines.len() - n0) as nat, |j: int| vri(n0 + j, 0)),
                forall|i: int| 0 <= i < n0 ==> #[trigger] self@.lines[i] == old(self)@.lines[i],
                forall|i: int| n0 <= i < self@.lines.len() ==> is_fresh_line(#[trigger] self@.lines[i], old(self)@.term_id),
            decreases self@.cursor.row + 1 - visible@.len(),
        {
            let ghost k = self@.lines.len() - n0;
            let l = GridLine::fresh(self.term_id);
            self.lines.push(l);
            let idx = self.lines.len() - 1;
            visible.push(VisibleRowIndex { line_idx: idx, row_idx: 0 });
            proof {
                assert(Seq::new((k + 1) as nat, |j: int| vri(n0 + j, 0)) =~= Seq::new(k as nat, |j: int| vri(n0 + j, 0)).push(vri(n0 + k, 0)));
                assert forall|i: int| 0 <= i < self.lines@.len() implies #[trigger] line_wf(self.lines@[i]) by {
                    if i < n0 {
                        assert(self.lines@[i] == old(self)@.lines[i]);
                    } else {
                        assert(is_fresh_line(self.lines@[i], old(self)@.term_id));
                    }
                }
            }
        }
        let t = visible[self.cursor.row];
        let final_len = self.lines.len();
        proof {
            let all = all_rows(old(self)@.lines);
            if (self.cursor.row as int) < v0.len() {
                let st = window_start(all.len() as int, self@.scroll_pos as int, self@.rows as int);
                assert(v0[self.cursor.row as int] == all[st + self.cursor.row]);
                assert(t == all[st + self.cursor.row]);
                assert(self@.lines[t.line_idx as int] == old(self)@.lines[t.line_idx as int]);
            } else {
                let j = self.cursor.row - v0.len();
                assert(visible@[self.cursor.row as int] == vri(n0 + j, 0));
                assert(is_fresh_line(self@.lines[n0 + j], old(self)@.term_id));
            }
        }
        t
    }

    /// Writes `cell` at the cursor's column of row `ri` of line `li`.
    fn write_at(&mut self, li: usize, ri: usize, cell: VtCell)
        requires
            old(self).wf(),
            li < old(self)@.lines.len(),
            ri < old(self)@.lines[li as int].rows@.len(),
        ensures
            final(self).wf(),
            ({
                let g = old(self)@;
                let h = final(self)@;
                let ol = g.lines[li as int];
                let nl = h.lines[li as int];
                let pos = row_offset(ol.rows@[ri as int]) + g.cursor.col;
                let before = line_cells(ol);
                let after = if pos < MAX_LINE_CELLS { written_cells(before, pos, cell) } else { before };
                let growth = after.len() - before.len();
                &&& h == GridView { lines: h.lines, ..g }
                &&& h.lines.len() == g.lines.len()
                &&& forall|i: int| 0 <= i < g.lines.len() && i != li ==> h.lines[i] == #[trigger] g.lines[i]
                &&& line_cells(nl) == after
                &&& if pos < MAX_LINE_CELLS {
                    &&& nl.line is Owned
                    &&& nl.line.spec_entity() == ol.line.spec_entity()
                    &&& nl.line.spec_value().spec_target() == g.term_id
                } else {
                    nl.line == ol.line
                }
                &&& nl.rows@.len() == ol.rows@.len()
                &&& forall|j: int| 0 <= j < nl.rows@.len() ==> {
                    let old_row = #[trigger] ol.rows@[j];
                    let new_row = nl.rows@[j];
                    if j > ri && growth > 0 {
                        &&& new_row.row is Owned
                        &&& new_row.row.spec_entity() == old_row.row.spec_entity()
                        &&& new_row.row.spec_value().line == old_row.row.spec_value().line
                        &&& row_offset(new_row) == row_offset(old_row) + growth
                    } else {
                        new_row == old_row
                    }
                }
            }),
    {
        let ghost g = self@;
        assert(line_wf(self.lines@[li as int]));
        assert(row_offset(self.lines@[li as int].rows@[ri as int]) <= line_cells(self.lines@[li as int]).len());
        let pos = self.lines[li].rows[ri].row.value().offset + self.cursor.col;
        if pos >= MAX_LINE_CELLS {
            return;
        }
        let mut cells = cells_vec(self.lines[li].line.value().cells());
        let prev_len = cells.len();
        if pos < cells.len() {
            cells.set(pos, cell);
        } else {
            let ghost base = cells@;
            while cells.len() < pos
                invariant
                    base.len() <= cells@.len() <= pos,
                    cells@ == base + Seq::new((cells@.len() - base.len()) as nat, |i: int| default_cell()),
                decreases pos - cells@.len(),
            {
                let ghost k = cells@.len() - base.len();
                cells.push(VtCell::default());
                assert(Seq::new((k + 1) as nat, |i: int| default_cell()) =~= Seq::new(k as nat, |i: int| default_cell()).push(default_cell()));
            }
            cells.push(cell);
        }
        assert(cells@ == written_cells(g.lines[li as int].line.spec_value().spec_cells(), pos as int, cell));
        let growth = cells.len() - prev_len;
        let mut gl = GridLine::new(self.term_id, Vec::new());
        self.lines.set_and_swap(li, &mut gl);
        assert(gl == g.lines[li as int]);
        let entity = gl.line.entity();
        gl.line = MaybeRef::Owned(entity, VtLine::from_cells(self.term_id, cells));
        let ghost new_line = gl.line;
        assert(gl.rows@ == g.lines[li as int].rows@);
        if growth > 0 {
            let nrows = gl.rows.len();
            let mut idx = ri + 1;
            while idx < nrows
                invariant
                    ri < idx <= nrows,
                    li < g.lines.len(),
                    gl.line == new_line,
                    nrows == gl.rows@.len(),
                    nrows == g.lines[li as int].rows@.len(),
                    line_wf(g.lines[li as int]),
                    growth == line_cells(gl).len() - line_cells(g.lines[li as int]).len(),
                    line_cells(gl).len() <= MAX_LINE_CELLS,
                    forall|j: int| 0 <= j < nrows ==> {
                        let old_row = #[trigger] g.lines[li as int].rows@[j];
                        let new_row = gl.rows@[j];
                        if j > ri && j < idx {
                            &&& new_row.row is Owned
                            &&& new_row.row.spec_entity() == old_row.row.spec_entity()
                            &&& new_row.row.spec_value().line == old_row.row.spec_value().line
                            &&& row_offset(new_row) == row_offset(old_row) + growth
                        } else {
                            new_row == old_row
                        }
                    },
                decreases nrows - idx,
            {
                assert(row_offset(g.lines[li as int].rows@[idx as int]) <= line_cells(g.lines[li as int]).len());
                let line_id = gl.rows[idx].row.value().line;
                let offset = gl.rows[idx].row.value().offset + growth;
                let e = gl.rows[idx].row.entity();
                gl.rows.set(idx, GridRow { row: MaybeRef::Owned(e, VtRow::new(line_id, offset)) });
                idx = idx + 1;
            }
        }
        self.lines.set(li, gl);
        proof {
            let nl = self.lines@[li as int];
            assert forall|j: int| 0 <= j < nl.rows@.len() implies #[trigger] row_offset(nl.rows@[j]) <= line_cells(nl).len() by {
                assert(row_offset(g.lines[li as int].rows@[j]) <= line_cells(g.lines[li as int]).len());
            }
            assert(line_wf(nl));
            assert forall|i: int| 0 <= i < self.lines@.len() implies #[trigger] line_wf(self.lines@[i]) by {
                if i != li {
                    assert(self.lines@[i] == g.lines[i]);
                }
            }
        }
    }
}

impl Grid {
    /// Writes `c` in `style` under the cursor; see [`written`]. The
    /// cursor itself only moves if a wrap was pending.
    pub fn write(&mut self, c: char, style: VtCellStyle)
        requires
            old(self).wf(),
        ensures
            final(self).wf(),
            written(old(self)@, styled_cell(c, style), final(self)@),
    {
        let ghost g = self@;
        self.wrap_if_pending();
        let ghost g1 = self@;
        let t = self.extend_to_cursor();
        let ghost g2 = self@;
        let cell = VtCell::new(c).with_style(style);
        self.write_at(t.line_idx, t.row_idx, cell);
        proof {
            let n = g.lines.len() as int;
            let li = t.line_idx as int;
            assert(t == write_target(g));
            if li < n {
                assert(g2.lines[li] == g1.lines[li]);
                assert(g1.lines[li] == g.lines[li]);
            } else if g.cursor.pending_wrap && li == n {
                assert(g2.lines[li] == g1.lines[li]);
                assert(is_fresh_line(g1.lines[li], g.term_id));
            } else {
                assert(is_fresh_line(g2.lines[li], g.term_id));
            }
            assert(write_pos(g) == row_offset(g2.lines[li].rows@[t.row_idx as int]) + g2.cursor.col);
            assert(write_before(g) == line_cells(g2.lines[li]));
            let h = self@;
            assert forall|i: int| 0 <= i < n && i != li implies h.lines[i] == #[trigger] g.lines[i] by {
                assert(h.lines[i] == g2.lines[i]);
                assert(g2.lines[i] == g1.lines[i]);
            }
            assert forall|i: int| n <= i < h.lines.len() && i != li implies is_fresh_line(#[trigger] h.lines[i], g.term_id) by {
                assert(h.lines[i] == g2.lines[i]);
                if i < g1.lines.len() {
                    assert(g2.lines[i] == g1.lines[i]);
                }
            }
        }
    }
}

/// The cells of every line.
pub open spec fn cells_of(lines: Seq<GridLine>) -> Seq<Seq<VtCell>> {
    lines.map_values(|l: GridLine| line_cells(l))
}

/// `cells` with the positions in `[lo, hi)` replaced by `b`.
pub open spec fn blanked(cells: Seq<VtCell>, lo: int, hi: int, b: VtCell) -> Seq<VtCell> {
    Seq::new(cells.len(), |k: int| if lo <= k < hi { b } else { cells[k] })
}

/// A region of the screen to blank, relative to the cursor.
#[derive(Clone, Copy, Debug, PartialEq, Eq, Structural)]
pub enum Erase {
    /// ED: 0 from the cursor to the end of the screen, 1 from the start
    /// of the screen through the cursor, 2 the whole screen.
    Display(u16),
    /// EL: 0 from the cursor to the end of its row, 1 from the start of
    /// the row through the cursor, 2 the whole row.
    Line(u16),
    /// ECH: this many cells from the cursor, within its row.
    Chars(usize),
}

/// The cell positions, relative to the row's start, that `kind` blanks
/// in the visible row at position `p`, with the cursor on visible row
/// `cur` at column `col`, `cols` wide.
pub open spec fn erase_span(kind: Erase, p: int, cur: int, col: int, cols: int) -> (int, int) {
    match kind {
        Erase::Display(mode) => if mode == 0 {
            if p < cur { (0, 0) } else if p == cur { (col, cols) } else { (0, cols) }
        } else if mode == 1 {
            if p < cur { (0, cols) } else if p == cur { (0, col + 1) } else { (0, 0) }
        } else if mode == 2 {
            (0, cols)
        } else {
            (0, 0)
        },
        Erase::Line(mode) => if p != cur {
            (0, 0)
        } else if mode == 0 {
            (col, cols)
        } else if mode == 1 {
            (0, col + 1)
        } else if mode == 2 {
            (0, cols)
        } else {
            (0, 0)
        },
        Erase::Chars(n) => if p != cur {
            (0, 0)
        } else if col + n <= cols {
            (col, col + n)
        } else {
            (col, cols)
        },
    }
}

/// The cells of every line after blanking, for the first `q` visible
/// rows `vis` of `g`, the span that `kind` selects in each.
pub open spec fn erase_fold(g: GridView, vis: Seq<VisibleRowIndex>, kind: Erase, b: VtCell, q: int) -> Seq<Seq<VtCell>>
    decreases q,
{
    if q <= 0 {
        cells_of(g.lines)
    } else {
        let prev = erase_fold(g, vis, kind, b, q - 1);
        let v = vis[q - 1];
        let off = row_offset(g.lines[v.line_idx as int].rows@[v.row_idx as int]) as int;
        let span = erase_span(kind, q - 1, g.cursor.row as int, g.cursor.col as int, g.cols as int);
        prev.update(v.line_idx as int, blanked(prev[v.line_idx as int], off + span.0, off + span.1, b))
    }
}

/// The outcome of blanking with `kind` and blank cell `b`: each visible
/// row has the span `kind` selects replaced by `b` (within the line's
/// existing cells); rows, the cursor and everything else stay.
pub open spec fn erased(g: GridView, kind: Erase, b: VtCell, h: GridView) -> bool {
    let vis = visible_of(g.lines, g.scroll_pos, g.rows);
    &&& h == GridView { lines: h.lines, ..g }
    &&& h.lines.len() == g.lines.len()
    &&& cells_of(h.lines) == erase_fold(g, vis, kind, b, vis.len() as int)
    &&& forall|i: int| 0 <= i < g.lines.len() ==> kept_or_owned(#[trigger] g.lines[i], h.lines[i], g.term_id)
}

proof fn lemma_erase_fold_shape(g: GridView, vis: Seq<VisibleRowIndex>, kind: Erase, b: VtCell, q: int)
    requires
        0 <= q <= vis.len(),
        forall|k: int| 0 <= k < vis.len() ==> (#[trigger] vis[k]).line_idx < g.lines.len(),
    ensures
        erase_fold(g, vis, kind, b, q).len() == g.lines.len(),
        forall|i: int|
            0 <= i < g.lines.len() ==> (#[trigger] erase_fold(g, vis, kind, b, q)[i]).len() == line_cells(g.lines[i]).len(),
    decreases q,
{
    if q > 0 {
        lemma_erase_fold_shape(g, vis, kind, b, q - 1);
        let v = vis[q - 1];
        let prev = erase_fold(g, vis, kind, b, q - 1);
        assert forall|i: int| 0 <= i < g.lines.len() implies (#[trigger] erase_fold(g, vis, kind, b, q)[i]).len()
            == line_cells(g.lines[i]).len() by {
            assert(prev[i].len() == line_cells(g.lines[i]).len());
        }
    }
}

/// Erasing blanks cells in place: every line keeps its number of cells
/// and its rows, and the cursor, the size and the scroll position stay.
pub proof fn lemma_erase_keeps_shape(g: GridView, kind: Erase, b: VtCell, h: GridView)
    requires
        grid_wf(g),
        g.lines.len() <= usize::MAX,
        erased(g, kind, b, h),
    ensures
        h.cursor == g.cursor,
        h.scroll_pos == g.scroll_pos,
        h.cols == g.cols && h.rows == g.rows,
        h.lines.len() == g.lines.len(),
        forall|i: int|
            0 <= i < g.lines.len() ==> line_cells(#[trigger] h.lines[i]).len() == line_cells(g.lines[i]).len()
                && h.lines[i].rows@ == g.lines[i].rows@,
{
    let vis = visible_of(g.lines, g.scroll_pos, g.rows);
    let all = all_rows(g.lines);
    lemma_all_rows_bounds(g.lines);
    let start = window_start(all.len() as int, g.scroll_pos as int, g.rows as int);
    let end = window_end(all.len() as int, g.scroll_pos as int);
    assert forall|k: int| 0 <= k < vis.len() implies (#[trigger] vis[k]).line_idx < g.lines.len() by {
        assert(vis[k] == all[start + k]);
    }
    lemma_erase_fold_shape(g, vis, kind, b, vis.len() as int);
    assert forall|i: int|
        0 <= i < g.lines.len() implies line_cells(#[trigger] h.lines[i]).len() == line_cells(g.lines[i]).len()
            && h.lines[i].rows@ == g.lines[i].rows@ by {
        assert(cells_of(h.lines)[i] == line_cells(h.lines[i]));
        assert(kept_or_owned(g.lines[i], h.lines[i], g.term_id));
    }
}

/// `n` is `o` with, at most, its cells replaced: same rows, and either
/// the same line or an owned line on the same entity.
pub open spec fn kept_or_owned(o: GridLine, n: GridLine, term_id: EntityId) -> bool {
    &&& n.rows@ == o.rows@
    &&& (n.line == o.line || (n.line is Owned && n.line.spec_entity() == o.line.spec_entity()
        && n.line.spec_value().spec_target() == term_id))
}

/// Replaces positions `[lo, hi)` of `cells` with `b`.
pub fn blank_range(cells: &mut Vec<VtCell>, lo: usize, hi: usize, b: VtCell)
    ensures
        final(cells)@ == blanked(old(cells)@, lo as int, hi as int, b),
{
    let end = if hi < cells.len() { hi } else { cells.len() };
    let mut k = lo;
    while k < end
        invariant
            lo <= k,
            k <= end || k == lo,
            end <= cells@.len(),
            cells@.len() == old(cells)@.len(),
            end == (if hi < old(cells)@.len() { hi } else { old(cells)@.len() as usize }),
            forall|j: int| 0 <= j < cells@.len() ==> #[trigger] cells@[j] == (if lo <= j < k { b } else { old(cells)@[j] }),
        decreases end - k,
    {
        cells.set(k, b);
        k = k + 1;
    }
    assert(cells@ =~= blanked(old(cells)@, lo as int, hi as int, b));
}

impl Grid {
    /// Replaces the cells of line `li`; the line becomes owned by the
    /// grid, on the entity it had.
    fn replace_cells(&mut self, li: usize, cells: Vec<VtCell>)
        requires
            old(self).wf(),
            li < old(self)@.lines.len(),
            cells@.len() <= MAX_LINE_CELLS,
            forall|j: int|
                0 <= j < old(self)@.lines[li as int].rows@.len() ==> #[trigger] row_offset(
                    old(self)@.lines[li as int].rows@[j],
                ) <= cells@.len(),
        ensures
            final(self).wf(),
            final(self)@ == (GridView { lines: final(self)@.lines, ..old(self)@ }),
            final(self)@.lines.len() == old(self)@.lines.len(),
            forall|i: int| 0 <= i < old(self)@.lines.len() && i != li ==> #[trigger] final(self)@.lines[i] == old(self)@.lines[i],
            final(self)@.lines[li as int].rows@ == old(self)@.lines[li as int].rows@,
            final(self)@.lines[li as int].line is Owned,
            final(self)@.lines[li as int].line.spec_entity() == old(self)@.lines[li as int].line.spec_entity(),
            final(self)@.lines[li as int].line.spec_value().spec_target() == old(self)@.term_id,
            line_cells(final(self)@.lines[li as int]) == cells@,
    {
        let ghost g = self@;
        let mut gl = GridLine::new(self.term_id, Vec::new());
        self.lines.set_and_swap(li, &mut gl);
        let entity = gl.line.entity();
        gl.line = MaybeRef::Owned(entity, VtLine::from_cells(self.term_id, cells));
        self.lines.set(li, gl);
        proof {
            assert(line_wf(self.lines@[li as int]));
            assert forall|i: int| 0 <= i < self.lines@.len() implies #[trigger] line_wf(self.lines@[i]) by {
                if i != li {
                    assert(self.lines@[i] == g.lines[i]);
                }
            }
        }
    }

    /// Blanks, in each visible row, the span that `kind` selects, with
    /// blanks in `style`; see [`erased`]. The cursor does not move.
    pub fn erase(&mut self, kind: Erase, style: VtCellStyle)
        requires
            old(self).wf(),
        ensures
            final(self).wf(),
            erased(old(self)@, kind, blank_cell(style), final(self)@),
    {
        let ghost g = self@;
        let b = VtCell { value: ' ', style };
        let vis = self.visible_rows();
        let n_lines = self.lines.len();
        proof {
            lemma_all_rows_bounds(g.lines);
        }
        let mut q: usize = 0;
        assert(cells_of(self@.lines) == erase_fold(g, vis@, kind, b, 0));
        while q < vis.len()
            invariant
                self.wf(),
                g.lines.len() == n_lines,
                vis@ == visible_of(g.lines, g.scroll_pos, g.rows),
                self@ == (GridView { lines: self@.lines, ..g }),
                self@.lines.len() == g.lines.len(),
                q <= vis@.len(),
                cells_of(self@.lines) == erase_fold(g, vis@, kind, b, q as int),
                forall|i: int| 0 <= i < g.lines.len() ==> kept_or_owned(#[trigger] g.lines[i], self@.lines[i], g.term_id),
                forall|k: int| 0 <= k < all_rows(g.lines).len() ==> {
                    let v = #[trigger] all_rows(g.lines)[k];
                    &&& v.line_idx < g.lines.len()
                    &&& v.row_idx < g.lines[v.line_idx as int].rows@.len()
                },
            decreases vis@.len() - q,
        {
            let v = vis[q];
            proof {
                let all = all_rows(g.lines);
                let st = window_start(all.len() as int, g.scroll_pos as int, g.rows as int);
                assert(vis@[q as int] == all[st + q]);
                assert(kept_or_owned(g.lines[v.line_idx as int], self@.lines[v.line_idx as int], g.term_id));
                assert(line_wf(self@.lines[v.line_idx as int]));
            }
            let li = v.line_idx;
            let off = self.lines[li].rows[v.row_idx].row.value().offset;
            let (lo, hi) = erase_span_exec(kind, q, self.cursor.row, self.cursor.col, self.cols);
            let mut cells = cells_vec(self.lines[li].line.value().cells());
            proof {
                assert(row_offset(self@.lines[li as int].rows@[v.row_idx as int]) <= line_cells(self@.lines[li as int]).len());
                assert(cells_of(self@.lines)[li as int] == line_cells(self@.lines[li as int]));
            }
            blank_range(&mut cells, off + lo, off + hi, b);
            proof {
                assert forall|j: int| 0 <= j < self@.lines[li as int].rows@.len() implies #[trigger] row_offset(
                    self@.lines[li as int].rows@[j],
                ) <= cells@.len() by {
                    assert(line_wf(self@.lines[li as int]));
                }
            }
            let ghost before = self@;
            self.replace_cells(li, cells);
            proof {
                assert(cells_of(self@.lines) =~= cells_of(before.lines).update(li as int, cells@));
                assert forall|i: int| 0 <= i < g.lines.len() implies kept_or_owned(#[trigger] g.lines[i], self@.lines[i], g.term_id) by {
                    if i != li {
                        assert(self@.lines[i] == before.lines[i]);
                    }
                }
            }
            q = q + 1;
        }
    }
}

/// Computes [`erase_span`].
pub fn erase_span_exec(kind: Erase, p: usize, cur: usize, col: usize, cols: usize) -> (r: (usize, usize))
    requires
        col <= cols <= MAX_LINE_CELLS,
    ensures
        r.0 as int == erase_span(kind, p as int, cur as int, col as int, cols as int).0,
        r.1 as int == erase_span(kind, p as int, cur as int, col as int, cols as int).1,
{
    match kind {
        Erase::Display(mode) => {
            if mode == 0 {
                if p < cur { (0, 0) } else if p == cur { (col, cols) } else { (0, cols) }
            } else if mode == 1 {
                if p < cur { (0, cols) } else if p == cur { (0, col + 1) } else { (0, 0) }
            } else if mode == 2 {
                (0, cols)
            } else {
                (0, 0)
            }
        },
        Erase::Line(mode) => {
            if p != cur {
                (0, 0)
            } else if mode == 0 {
                (col, cols)
            } else if mode == 1 {
                (0, col + 1)
            } else if mode == 2 {
                (0, cols)
            } else {
                (0, 0)
            }
        },
        Erase::Chars(n) => {
            if p != cur {
                (0, 0)
            } else if n <= cols - col {
                (col, col + n)
            } else {
                (col, cols)
            }
        },
    }
}

/// `count` copies of `c`.
pub open spec fn copies(c: VtCell, count: int) -> Seq<VtCell> {
    Seq::new(count as nat, |i: int| c)
}

/// The cells after inserting `k` blanks `b` at `pos` in a row ending at
/// `margin`: the cells from `pos` move right and those pushed past the
/// margin are dropped; cells beyond the margin stay.
pub open spec fn inserted_cells(cells: Seq<VtCell>, pos: int, margin: int, k: int, b: VtCell) -> Seq<VtCell> {
    let len = cells.len() as int;
    let keep_end = if len < margin - k { len } else { margin - k };
    let tail = if len > margin { cells.subrange(margin, len) } else { Seq::<VtCell>::empty() };
    cells.subrange(0, pos) + copies(b, k) + cells.subrange(pos, keep_end) + tail
}

/// The cells after deleting `k` cells at `pos` in a row ending at
/// `margin`: the rest of the row moves left, the row is padded with
/// default cells and ends in `k` blanks `b`; cells beyond the margin stay.
pub open spec fn deleted_cells(cells: Seq<VtCell>, pos: int, margin: int, k: int, b: VtCell) -> Seq<VtCell> {
    let len = cells.len() as int;
    let seg_end = if len < margin { len } else { margin };
    let kept = if pos + k < seg_end { cells.subrange(pos + k, seg_end) } else { Seq::<VtCell>::empty() };
    let tail = if len > margin { cells.subrange(margin, len) } else { Seq::<VtCell>::empty() };
    cells.subrange(0, pos) + kept + copies(default_cell(), margin - k - pos - kept.len()) + copies(b, k) + tail
}

/// Deleting what was just inserted: inserting `k` blanks at `pos` and
/// then deleting `k` cells at `pos` gives back the row, except that the
/// `k` cells that the insertion pushed past the margin are lost and the
/// row ends in `k` blanks instead; cells beyond the margin stay.
pub proof fn lemma_insert_then_delete(cells: Seq<VtCell>, pos: int, margin: int, k: int, b: VtCell)
    requires
        0 <= pos,
        0 <= k,
        pos + k <= margin <= cells.len(),
    ensures
        deleted_cells(inserted_cells(cells, pos, margin, k, b), pos, margin, k, b) == cells.subrange(0, margin - k)
            + copies(b, k) + cells.subrange(margin, cells.len() as int),
{
    let ins = inserted_cells(cells, pos, margin, k, b);
    let len = cells.len() as int;
    let tail = if len > margin { cells.subrange(margin, len) } else { Seq::<VtCell>::empty() };
    assert(ins =~= cells.subrange(0, pos) + copies(b, k) + cells.subrange(pos, margin - k) + tail);
    assert(ins.len() == len);
    let kept = if pos + k < margin { ins.subrange(pos + k, margin) } else { Seq::<VtCell>::empty() };
    assert(kept =~= cells.subrange(pos, margin - k));
    let itail = if len > margin { ins.subrange(margin, len) } else { Seq::<VtCell>::empty() };
    assert(itail =~= tail);
    assert(copies(default_cell(), margin - k - pos - kept.len()) =~= Seq::<VtCell>::empty());
    assert(tail =~= cells.subrange(margin, len));
    assert(deleted_cells(ins, pos, margin, k, b) =~= cells.subrange(0, margin - k) + copies(b, k) + cells.subrange(
        margin,
        len,
    ));
}

/// The visible row under the cursor, if there is one.
pub open spec fn cursor_row_of(g: GridView) -> Option<VisibleRowIndex> {
    let vis = visible_of(g.lines, g.scroll_pos, g.rows);
    if g.cursor.row < vis.len() {
        Some(vis[g.cursor.row as int])
    } else {
        None
    }
}

/// The outcome of inserting (`insert`) or deleting `n` (at least one)
/// cells at the cursor, with blanks `b`: nothing happens when no row is
/// under the cursor, the cursor is past the end of its line, or the line
/// would outgrow [`MAX_LINE_CELLS`]; otherwise the cursor's line gets
/// [`inserted_cells`] or [`deleted_cells`] with the count clamped to the
/// cells left in the row.
pub open spec fn shifted(g: GridView, insert: bool, n: usize, b: VtCell, h: GridView) -> bool {
    match cursor_row_of(g) {
        None => h == g,
        Some(t) => {
            let li = t.line_idx as int;
            let off = row_offset(g.lines[li].rows@[t.row_idx as int]) as int;
            let pos = off + g.cursor.col;
            let margin = off + g.cols;
            let cnt = if n == 0 { 1 } else { n as int };
            let k = if cnt <= margin - pos { cnt } else { margin - pos };
            let before = line_cells(g.lines[li]);
            let after = if insert {
                inserted_cells(before, pos, margin, k, b)
            } else {
                deleted_cells(before, pos, margin, k, b)
            };
            if pos >= before.len() || after.len() > MAX_LINE_CELLS {
                h == g
            } else {
                &&& h == GridView { lines: h.lines, ..g }
                &&& h.lines.len() == g.lines.len()
                &&& forall|i: int| 0 <= i < g.lines.len() && i != li ==> h.lines[i] == #[trigger] g.lines[i]
                &&& kept_or_owned(g.lines[li], h.lines[li], g.term_id)
                &&& line_cells(h.lines[li]) == after
            }
        },
    }
}

/// Appends `src[from..to]` to `dst`.
pub fn push_range(dst: &mut Vec<VtCell>, src: &Vec<VtCell>, from: usize, to: usize)
    requires
        from <= to <= src@.len(),
    ensures
        final(dst)@ == old(dst)@ + src@.subrange(from as int, to as int),
{
    let mut i = from;
    while i < to
        invariant
            from <= i <= to <= src@.len(),
            dst@ == old(dst)@ + src@.subrange(from as int, i as int),
        decreases to - i,
    {
        dst.push(src[i]);
        assert(src@.subrange(from as int, i + 1) =~= src@.subrange(from as int, i as int).push(src@[i as int]));
        i = i + 1;
    }
}

/// Appends `count` copies of `c` to `dst`.
pub fn push_copies(dst: &mut Vec<VtCell>, c: VtCell, count: usize)
    ensures
        final(dst)@ == old(dst)@ + copies(c, count as int),
{
    let mut i: usize = 0;
    while i < count
        invariant
            i <= count,
            dst@ == old(dst)@ + copies(c, i as int),
        decreases count - i,
    {
        dst.push(c);
        assert(copies(c, i + 1) =~= copies(c, i as int).push(c));
        i = i + 1;
    }
}

/// Computes [`inserted_cells`].
pub fn insert_cells_vec(cells: &Vec<VtCell>, pos: usize, margin: usize, k: usize, b: VtCell) -> (out: Vec<VtCell>)
    requires
        pos < cells@.len(),
        pos + k <= margin,
    ensures
        out@ == inserted_cells(cells@, pos as int, margin as int, k as int, b),
        out@.len() >= cells@.len(),
{
    let len = cells.len();
    let keep_end = if len < margin - k { len } else { margin - k };
    let tail_from = if len > margin { margin } else { len };
    let mut out: Vec<VtCell> = Vec::new();
    push_range(&mut out, cells, 0, pos);
    push_copies(&mut out, b, k);
    push_range(&mut out, cells, pos, keep_end);
    push_range(&mut out, cells, tail_from, len);
    assert(out@ =~= inserted_cells(cells@, pos as int, margin as int, k as int, b));
    out
}

/// Computes [`deleted_cells`].
pub fn delete_cells_vec(cells: &Vec<VtCell>, pos: usize, margin: usize, k: usize, b: VtCell) -> (out: Vec<VtCell>)
    requires
        pos < cells@.len(),
        pos + k <= margin,
    ensures
        out@ == deleted_cells(cells@, pos as int, margin as int, k as int, b),
        out@.len() >= cells@.len(),
{
    let len = cells.len();
    let seg_end = if len < margin { len } else { margin };
    let tail_from = if len > margin { margin } else { len };
    let mut out: Vec<VtCell> = Vec::new();
    push_range(&mut out, cells, 0, pos);
    let kept_len = if pos + k < seg_end { seg_end - (pos + k) } else { 0 };
    if pos + k < seg_end {
        push_range(&mut out, cells, pos + k, seg_end);
    }
    push_copies(&mut out, VtCell::default(), margin - k - pos - kept_len);
    push_copies(&mut out, b, k);
    push_range(&mut out, cells, tail_from, len);
    assert(out@ =~= deleted_cells(cells@, pos as int, margin as int, k as int, b));
    out
}

impl Grid {
    /// The visible row under the cursor, if there is one.
    pub fn cursor_row(&self) -> (r: Option<VisibleRowIndex>)
        ensures
            r == cursor_row_of(self@),
    {
        let vis = self.visible_rows();
        if self.cursor.row < vis.len() {
            Some(vis[self.cursor.row])
        } else {
            None
        }
    }

    /// Inserts (`insert`) or deletes `n` cells at the cursor, blanks in
    /// `style`; see [`shifted`]. The cursor does not move.
    pub fn shift(&mut self, insert: bool, n: usize, style: VtCellStyle)
        requires
            old(self).wf(),
        ensures
            final(self).wf(),
            shifted(old(self)@, insert, n, blank_cell(style), final(self)@),
    {
        let ghost g = self@;
        let b = VtCell { value: ' ', style };
        let n_lines = self.lines.len();
        let t = match self.cursor_row() {
            Some(t) => t,
            None => return,
        };
        proof {
            lemma_all_rows_bounds(g.lines);
            let all = all_rows(g.lines);
            let st = window_start(all.len() as int, g.scroll_pos as int, g.rows as int);
            assert(visible_of(g.lines, g.scroll_pos, g.rows)[g.cursor.row as int] == all[st + g.cursor.row]);
            assert(line_wf(g.lines[t.line_idx as int]));
            assert(row_offset(g.lines[t.line_idx as int].rows@[t.row_idx as int]) <= line_cells(g.lines[t.line_idx as int]).len());
        }
        let li = t.line_idx;
        let off = self.lines[li].rows[t.row_idx].row.value().offset;
        let pos = off + self.cursor.col;
        let margin = off + self.cols;
        let cells = cells_vec(self.lines[li].line.value().cells());
        let len = cells.len();
        if pos >= len {
            return;
        }
        let cnt = if n == 0 { 1 } else { n };
        let k = if cnt <= margin - pos { cnt } else { margin - pos };
        let out = if insert {
            insert_cells_vec(&cells, pos, margin, k, b)
        } else {
            delete_cells_vec(&cells, pos, margin, k, b)
        };
        if out.len() > MAX_LINE_CELLS {
            return;
        }
        proof {
            assert forall|j: int| 0 <= j < g.lines[li as int].rows@.len() implies #[trigger] row_offset(
                g.lines[li as int].rows@[j],
            ) <= out@.len() by {
                assert(line_wf(g.lines[li as int]));
            }
        }
        self.replace_cells(li, out);
    }
}

/// The column a horizontal tab moves to: the next multiple of `width`
/// after `col`, clamped to the last column; a zero width leaves the
/// cursor where it is.
pub open spec fn tab_col(col: int, width: int, cols: int) -> int {
    if width == 0 {
        col
    } else {
        let next = col - col % width + width;
        if next <= cols - 1 {
            next
        } else {
            cols - 1
        }
    }
}

impl Grid {
    /// Starts a fresh line below the cursor's: appends a fresh line,
    /// moves the cursor one line down and to the first column.
    pub fn line_feed(&mut self)
        requires
            old(self).wf(),
        ensures
            final(self).wf(),
            final(self)@ == (GridView {
                lines: final(self)@.lines,
                cursor: VtCursor { col: 0, ..cursor_down(old(self)@.cursor, old(self)@.rows) },
                ..old(self)@
            }),
            final(self)@.lines.len() == old(self)@.lines.len() + 1,
            forall|i: int| 0 <= i < old(self)@.lines.len() ==> #[trigger] final(self)@.lines[i] == old(self)@.lines[i],
            is_fresh_line(final(self)@.lines.last(), old(self)@.term_id),
    {
        let l = GridLine::fresh(self.term_id);
        self.lines.push(l);
        self.increment_line();
        self.cursor.col = 0;
        proof {
            assert forall|i: int| 0 <= i < self.lines@.len() implies #[trigger] line_wf(self.lines@[i]) by {
                if i < self.lines@.len() - 1 {
                    assert(self.lines@[i] == old(self)@.lines[i]);
                }
            }
        }
    }

    /// Moves the cursor to column `col` of its row.
    pub fn set_col(&mut self, col: usize)
        requires
            old(self).wf(),
            col <= old(self)@.cols,
        ensures
            final(self).wf(),
            final(self)@ == (GridView { cursor: VtCursor { col, ..old(self)@.cursor }, ..old(self)@ }),
    {
        self.cursor.col = col;
    }

    /// Moves the cursor to row `row` of the viewport.
    pub fn set_row(&mut self, row: usize)
        requires
            old(self).wf(),
            row <= old(self)@.rows,
        ensures
            final(self).wf(),
            final(self)@ == (GridView { cursor: VtCursor { row, ..old(self)@.cursor }, ..old(self)@ }),
    {
        self.cursor.row = row;
    }

    /// Cancels a pending wrap.
    pub fn clear_pending_wrap(&mut self)
        requires
            old(self).wf(),
        ensures
            final(self).wf(),
            final(self)@ == (GridView { cursor: VtCursor { pending_wrap: false, ..old(self)@.cursor }, ..old(self)@ }),
    {
        self.cursor.pending_wrap = false;
    }

    /// Moves the cursor to the next tab stop of `width` columns,
    /// clamped to the last column.
    pub fn tab(&mut self, width: usize)
        requires
            old(self).wf(),
        ensures
            final(self).wf(),
            final(self)@ == (GridView {
                cursor: VtCursor {
                    col: tab_col(old(self)@.cursor.col as int, width as int, old(self)@.cols as int) as usize,
                    ..old(self)@.cursor
                },
                ..old(self)@
            }),
    {
        if width == 0 {
            return;
        }
        let col = self.cursor.col;
        let r = col % width;
        assert(0 <= r < width && r <= col) by (nonlinear_arith)
            requires
                r == col % width,
                width > 0,
        ;
        let base = col - r;
        let last = self.cols - 1;
        let next = if base <= last && width <= last - base { base + width } else { last };
        self.cursor.col = next;
    }
}

/// What a grid hands back to the terminal once it is done: the viewport
/// rows to release, the cursor and scroll position to store, and its
/// lines, each line and row either still borrowed (nothing to store) or
/// owned (to be stored on its entity, or on a new one), with the rows
/// to mark visible.
pub struct GridSync {
    pub term_id: EntityId,
    pub clear_viewport: Vec<EntityId>,
    pub cursor: VtCursor,
    pub scroll_pos: VtScrollPos,
    pub lines: Vec<GridLine>,
    pub visible: Vec<Vec<bool>>,
}

/// Whether `vis` contains `v`.
pub fn contains_index(vis: &Vec<VisibleRowIndex>, v: VisibleRowIndex) -> (b: bool)
    ensures
        b == vis@.contains(v),
{
    let mut i: usize = 0;
    while i < vis.len()
        invariant
            i <= vis@.len(),
            forall|j: int| 0 <= j < i ==> vis@[j] != v,
        decreases vis@.len() - i,
    {
        if vis[i] == v {
            return true;
        }
        i = i + 1;
    }
    false
}

impl Grid {
    /// Builds a grid when its parts are well formed (see [`grid_wf`]),
    /// and `None` otherwise.
    pub fn try_new(
        term_id: EntityId,
        lines: Vec<GridLine>,
        viewport: Vec<EntityId>,
        cols: usize,
        rows: usize,
        scroll_pos: usize,
        cursor: VtCursor,
    ) -> (g: Option<Grid>)
        ensures
            g is Some <==> grid_wf(
                GridView { lines: lines@, viewport: viewport@, cols, rows, scroll_pos, cursor, term_id },
            ),
            g matches Some(g) ==> g@ == (GridView {
                lines: lines@,
                viewport: viewport@,
                cols,
                rows,
                scroll_pos,
                cursor,
                term_id,
            }),
    {
        if cols == 0 || cols > MAX_LINE_CELLS || rows == 0 || rows > MAX_LINE_CELLS || cursor.row > rows || cursor.col
            > cols {
            return None;
        }
        let mut i: usize = 0;
        while i < lines.len()
            invariant
                i <= lines@.len(),
                forall|k: int| 0 <= k < i ==> #[trigger] line_wf(lines@[k]),
            decreases lines@.len() - i,
        {
            let len = lines[i].line.value().cells().len();
            if len > MAX_LINE_CELLS {
                assert(!line_wf(lines@[i as int]));
                return None;
            }
            let mut j: usize = 0;
            while j < lines[i].rows.len()
                invariant
                    i < lines@.len(),
                    j <= lines@[i as int].rows@.len(),
                    len == line_cells(lines@[i as int]).len(),
                    forall|q: int| 0 <= q < j ==> #[trigger] row_offset(lines@[i as int].rows@[q]) <= len,
                decreases lines@[i as int].rows@.len() - j,
            {
                if lines[i].rows[j].row.value().offset > len {
                    assert(row_offset(lines@[i as int].rows@[j as int]) > line_cells(lines@[i as int]).len());
                    assert(!line_wf(lines@[i as int]));
                    return None;
                }
                j = j + 1;
            }
            i = i + 1;
        }
        Some(Grid { lines, viewport_entities: viewport, cols, rows, scroll_pos, cursor, term_id })
    }

    /// Hands the grid back as a [`GridSync`]: the viewport rows to
    /// release, the cursor and scroll position, the lines, and for each
    /// row of each line whether it is visible.
    pub fn sync(self) -> (s: GridSync)
        ensures
            s.term_id == self@.term_id,
            s.clear_viewport@ == self@.viewport,
            s.cursor == self@.cursor,
            s.scroll_pos == VtScrollPos(self@.scroll_pos),
            s.lines@ == self@.lines,
            s.visible@.len() == self@.lines.len(),
            forall|i: int|
                0 <= i < s.visible@.len() ==> (#[trigger] s.visible@[i])@.len() == self@.lines[i].rows@.len(),
            forall|i: int, j: int|
                0 <= i < s.visible@.len() && 0 <= j < s.visible@[i]@.len() ==> (#[trigger] s.visible@[i]@[j]
                    == self.spec_visible_rows().contains(vri(i, j))),
    {
        let vis = self.visible_rows();
        let mut visible: Vec<Vec<bool>> = Vec::new();
        let mut i: usize = 0;
        while i < self.lines.len()
            invariant
                i <= self.lines@.len(),
                vis@ == self.spec_visible_rows(),
                visible@.len() == i,
                forall|k: int| 0 <= k < i ==> (#[trigger] visible@[k])@.len() == self.lines@[k].rows@.len(),
                forall|k: int, j: int|
                    0 <= k < i && 0 <= j < visible@[k]@.len() ==> (#[trigger] visible@[k]@[j] == vis@.contains(vri(k, j))),
            decreases self.lines@.len() - i,
        {
            let mut flags: Vec<bool> = Vec::new();
            let mut j: usize = 0;
            while j < self.lines[i].rows.len()
                invariant
                    i < self.lines@.len(),
                    j <= self.lines@[i as int].rows@.len(),
                    flags@.len() == j,
                    forall|q: int| 0 <= q < j ==> (#[trigger] flags@[q] == vis@.contains(vri(i as int, q))),
                decreases self.lines@[i as int].rows@.len() - j,
            {
                let f = contains_index(&vis, VisibleRowIndex { line_idx: i, row_idx: j });
                flags.push(f);
                j = j + 1;
            }
            visible.push(flags);
            i = i + 1;
        }
        GridSync {
            term_id: self.term_id,
            clear_viewport: self.viewport_entities,
            cursor: self.cursor,
            scroll_pos: VtScrollPos(self.scroll_pos),
            lines: self.lines,
            visible,
        }
    }
}

/// The cursor brought back into a viewport of `rows` by `cols`, as after
/// the viewport shrank: the row is at most the last row and the column
/// at most one past the last column; a pending wrap is kept.
pub open spec fn clamped_cursor(c: VtCursor, cols: usize, rows: usize) -> VtCursor {
    VtCursor {
        row: if rows == 0 { 0 } else if c.row < rows { c.row } else { (rows - 1) as usize },
        col: if c.col <= cols { c.col } else { cols },
        ..c
    }
}

/// Brings the cursor back into a viewport of `rows` by `cols` (see
/// [`clamped_cursor`]), so that a grid can be built on a terminal that
/// shrank.
pub fn clamp_cursor(c: VtCursor, cols: usize, rows: usize) -> (r: VtCursor)
    ensures
        r == clamped_cursor(c, cols, rows),
        rows > 0 ==> r.row < rows,
        r.col <= cols,
{
    VtCursor {
        row: if rows == 0 { 0 } else if c.row < rows { c.row } else { rows - 1 },
        col: if c.col <= cols { c.col } else { cols },
        pending_wrap: c.pending_wrap,
    }
}

/// `pos` moved by the signed `delta`, saturating at 0 and `usize::MAX`.
pub open spec fn saturating_add_signed(pos: usize, delta: isize) -> usize {
    let r = pos + delta;
    if r < 0 {
        0
    } else if r > usize::MAX {
        usize::MAX
    } else {
        r as usize
    }
}

/// Moves `pos` by the signed `delta`, saturating at 0 and `usize::MAX`.
pub fn add_signed_saturating(pos: usize, delta: isize) -> (r: usize)
    ensures
        r == saturating_add_signed(pos, delta),
{
    if delta >= 0 {
        let d = delta as usize;
        if pos > usize::MAX - d {
            usize::MAX
        } else {
            pos + d
        }
    } else {
        let d = if delta == isize::MIN {
            (isize::MAX as usize) + 1
        } else {
            (-delta) as usize
        };
        if pos < d {
            0
        } else {
            pos - d
        }
    }
}

} // verus!
