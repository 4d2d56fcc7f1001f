//! The terminal's data: its buffer of lines, the rows that lay lines out
//! on screen, the cursor, the viewport and the modes.
use vstd::prelude::*;

use crate::style::{default_style, styled_cell, VtCell, VtCellStyle};
use crate::text::{chars_of, push_char};
use crate::EntityId;

verus! {

/// Marker for a terminal entity.
#[derive(Clone, Copy, Debug, PartialEq, Eq, Structural)]
pub struct Terminal;

/// Marker for a terminal whose viewport has been laid out at a non-zero
/// size at least once; only such terminals consume queued input.
#[derive(Clone, Copy, Debug, PartialEq, Eq, Structural)]
pub struct VtReady;

/// DEC private modes the parser tracks per terminal. Mutated by SM
/// (`CSI ? Pn h`) and RM (`CSI ? Pn l`).
#[derive(Clone, Copy, Debug, PartialEq, Eq, Structural)]
pub struct VtModes {
    /// DECTCEM (`?25`). Cursor visible when `true`.
    pub dectcem: bool,
    /// DECAWM (`?7`). Auto-wrap at the right margin when `true`.
    pub decawm: bool,
}

impl Default for VtModes {
    fn default() -> (m: VtModes)
        ensures
            m.dectcem && m.decawm,
    {
        VtModes { dectcem: true, decawm: true }
    }
}

/// Cursor for the terminal, relative to the top-left of the viewport.
/// `pending_wrap` is set when the last column has been written and the
/// next printed character starts a new line.
#[derive(Clone, Copy, Debug, PartialEq, Eq, Structural)]
pub struct VtCursor {
    pub row: usize,
    pub col: usize,
    pub pending_wrap: bool,
}

impl Default for VtCursor {
    fn default() -> (c: VtCursor)
        ensures
            c == (VtCursor { row: 0, col: 0, pending_wrap: false }),
    {
        VtCursor { row: 0, col: 0, pending_wrap: false }
    }
}

impl VtCursor {
    pub fn new(line: usize, char: usize) -> (c: VtCursor)
        ensures
            c == (VtCursor { row: line, col: char, pending_wrap: false }),
    {
        VtCursor { row: line, col: char, pending_wrap: false }
    }
}

/// Configurable tab stop in character width.
#[derive(Clone, Copy, Debug, PartialEq, Eq, Structural)]
pub struct VtTabStop(pub usize);

impl Default for VtTabStop {
    fn default() -> (t: VtTabStop)
        ensures
            t.0 == 8,
    {
        VtTabStop(8)
    }
}

/// The terminal's lines, oldest first.
#[derive(Clone, Debug)]
pub struct VtLineTarget(pub Vec<EntityId>);

impl VtLineTarget {
    pub fn entities(&self) -> (e: &Vec<EntityId>)
        ensures
            e@ == self.0@,
    {
        &self.0
    }
}

/// A single, newline-delimited logical line: its cells and the terminal
/// it belongs to. Lines do not include the trailing newline.
#[derive(Debug)]
pub struct VtLine {
    cells: Vec<VtCell>,
    target: EntityId,
}

impl VtLine {
    /// The cells of the line.
    pub closed spec fn spec_cells(&self) -> Seq<VtCell> {
        self.cells@
    }

    /// The terminal the line belongs to.
    pub closed spec fn spec_target(&self) -> EntityId {
        self.target
    }

    pub fn new(terminal_id: EntityId) -> (l: VtLine)
        ensures
            l.spec_cells() == Seq::<VtCell>::empty(),
            l.spec_target() == terminal_id,
    {
        VtLine { cells: Vec::new(), target: terminal_id }
    }

    /// A line holding the characters of `string`, each in the default style.
    pub fn from_str(terminal_id: EntityId, string: &str) -> (l: VtLine)
        ensures
            l.spec_cells() == styled_cells(string@, default_style()),
            l.spec_target() == terminal_id,
    {
        VtLine::from_str_with_style(terminal_id, string, VtCellStyle::default())
    }

    /// A line holding the characters of `string`, each in `style`.
    pub fn from_str_with_style(terminal_id: EntityId, string: &str, style: VtCellStyle) -> (l: VtLine)
        ensures
            l.spec_cells() == styled_cells(string@, style),
            l.spec_target() == terminal_id,
    {
        let chars = chars_of(string);
        let mut cells: Vec<VtCell> = Vec::new();
        let mut i: usize = 0;
        assert(styled_cells(chars@.take(0), style) =~= Seq::<VtCell>::empty());
        while i < chars.len()
            invariant
                i <= chars.len(),
                chars@ == string@,
                cells@ =~= styled_cells(chars@.take(i as int), style),
            decreases chars.len() - i,
        {
            cells.push(VtCell { value: chars[i], style });
            assert(chars@.take(i + 1) =~= chars@.take(i as int).push(chars@[i as int]));
            assert(styled_cells(chars@.take(i + 1), style) =~= styled_cells(chars@.take(i as int), style).push(
                styled_cell(chars@[i as int], style),
            ));
            i = i + 1;
        }
        assert(chars@.take(chars.len() as int) =~= chars@);
        VtLine { cells, target: terminal_id }
    }

    /// The characters of the line, in order.
    pub fn as_string(&self) -> (s: String)
        ensures
            s@ == self.spec_cells().map_values(|c: VtCell| c.value),
    {
        let mut s = String::new();
        let mut i: usize = 0;
        assert(self.cells@.take(0).map_values(|c: VtCell| c.value) =~= Seq::<char>::empty());
        while i < self.cells.len()
            invariant
                i <= self.cells.len(),
                s@ =~= self.cells@.take(i as int).map_values(|c: VtCell| c.value),
            decreases self.cells.len() - i,
        {
            push_char(&mut s, self.cells[i].value);
            assert(self.cells@.take(i + 1).map_values(|c: VtCell| c.value)
                =~= self.cells@.take(i as int).map_values(|c: VtCell| c.value).push(self.cells@[i as int].value));
            i = i + 1;
        }
        assert(self.cells@.take(self.cells.len() as int) =~= self.cells@);
        s
    }

    pub fn from_cells(terminal_id: EntityId, cells: Vec<VtCell>) -> (l: VtLine)
        ensures
            l.spec_cells() == cells@,
            l.spec_target() == terminal_id,
    {
        VtLine { cells, target: terminal_id }
    }

    pub fn cells(&self) -> (c: &[VtCell])
        ensures
            c@ == self.spec_cells(),
    {
        self.cells.as_slice()
    }

    /// The terminal the line belongs to.
    pub fn target(&self) -> (t: EntityId)
        ensures
            t == self.spec_target(),
    {
        self.target
    }
}

/// The cells holding `chars`, in order, each in `style`.
pub open spec fn styled_cells(chars: Seq<char>, style: VtCellStyle) -> Seq<VtCell> {
    chars.map_values(|c: char| styled_cell(c, style))
}

/// The rows that lay out one line, in order.
#[derive(Clone, Debug)]
pub struct VtRowTarget(pub Vec<EntityId>);

impl VtRowTarget {
    pub fn entities(&self) -> (e: &Vec<EntityId>)
        ensures
            e@ == self.0@,
    {
        &self.0
    }
}

/// Scroll position, in rows. 0 means the viewport shows the bottom.
#[derive(Clone, Copy, Debug, PartialEq, Eq, Structural)]
pub struct VtScrollPos(pub usize);

/// The rows currently shown, top first.
#[derive(Clone, Debug)]
pub struct VtViewport(pub Vec<EntityId>);

impl VtViewport {
    pub fn entities(&self) -> (e: &Vec<EntityId>)
        ensures
            e@ == self.0@,
    {
        &self.0
    }
}

/// Marks a row as visible in the viewport of the given terminal.
#[derive(Clone, Copy, Debug, PartialEq, Eq, Structural)]
pub struct VtViewportRow(pub EntityId);

impl VtViewportRow {
    pub fn new(term_id: EntityId) -> (r: VtViewportRow)
        ensures
            r.0 == term_id,
    {
        VtViewportRow(term_id)
    }
}

/// A reference to a logical line with a character offset into it: one
/// screen row of that line.
#[derive(Clone, Copy, Debug, PartialEq, Eq, Structural)]
pub struct VtRow {
    /// Character offset into the line at which this row begins.
    pub offset: usize,
    /// The line this row lays out.
    pub line: EntityId,
}

impl VtRow {
    pub fn new(line: EntityId, offset: usize) -> (r: VtRow)
        ensures
            r.offset == offset,
            r.line == line,
    {
        VtRow { offset, line }
    }

    pub fn line(&self) -> (l: EntityId)
        ensures
            l == self.line,
    {
        self.line
    }
}

/// Size of the viewport in character cells.
#[derive(Clone, Copy, Debug, PartialEq, Eq, Structural)]
pub struct VtSize {
    pub rows: usize,
    pub cols: usize,
}

impl Default for VtSize {
    fn default() -> (s: VtSize)
        ensures
            s.rows == 0 && s.cols == 0,
    {
        VtSize { rows: 0, cols: 0 }
    }
}

/// Marks the foreground process of a terminal: the only peer whose
/// output is rendered when background output is suppressed.
#[derive(Clone, Copy, Debug, PartialEq, Eq, Structural)]
pub struct VtForegroundProcess {
    terminal: EntityId,
}

impl VtForegroundProcess {
    pub closed spec fn spec_terminal(&self) -> EntityId {
        self.terminal
    }

    pub fn new(terminal: EntityId) -> (p: VtForegroundProcess)
        ensures
            p.spec_terminal() == terminal,
    {
        VtForegroundProcess { terminal }
    }

    pub fn terminal(&self) -> (t: EntityId)
        ensures
            t == self.spec_terminal(),
    {
        self.terminal
    }
}

/// The terminal side of [`VtForegroundProcess`].
#[derive(Clone, Copy, Debug, PartialEq, Eq, Structural)]
pub struct VtForegroundProcessTarget {
    process: EntityId,
}

impl VtForegroundProcessTarget {
    pub closed spec fn spec_process(&self) -> EntityId {
        self.process
    }

    pub fn new(process: EntityId) -> (t: VtForegroundProcessTarget)
        ensures
            t.spec_process() == process,
    {
        VtForegroundProcessTarget { process }
    }

    pub fn process(&self) -> (p: EntityId)
        ensures
            p == self.spec_process(),
    {
        self.process
    }
}

} // verus!
