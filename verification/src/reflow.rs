//! Laying logical lines out as rows of a given width, choosing the rows
//! that the viewport shows, and moving the viewport.
use vstd::prelude::*;

use crate::events::TermViewportMsg;
use crate::grid::{window_end, window_start};
use crate::EntityId;

verus! {

/// How many rows a line of `len` cells takes at `cols` columns: one
/// row per started run of `cols` cells, and one row for an empty line.
pub open spec fn flow_count(len: nat, cols: nat) -> nat
    decreases len,
{
    if cols == 0 {
        0
    } else if len <= cols {
        1
    } else {
        1 + flow_count((len - cols) as nat, cols)
    }
}

/// The offsets at which the rows of a line of `len` cells start.
pub open spec fn flow_offsets(len: nat, cols: nat) -> Seq<usize> {
    Seq::new(flow_count(len, cols), |i: int| (i * cols) as usize)
}

/// The offsets of the rows that a line of `len` cells takes at `cols`
/// columns: `0, cols, 2 * cols, ...`, as many as [`flow_count`] says.
/// A terminal without columns or rows lays out nothing.
pub fn flow_line(cols: usize, rows: usize, len: usize) -> (offsets: Vec<usize>)
    requires
        len <= usize::MAX - cols,
    ensures
        offsets@ == (if cols == 0 || rows == 0 {
            Seq::<usize>::empty()
        } else {
            flow_offsets(len as nat, cols as nat)
        }),
{
    let mut res: Vec<usize> = Vec::new();
    if cols == 0 || rows == 0 {
        return res;
    }
    let mut offset: usize = 0;
    let ghost mut k: nat = 0;
    loop
        invariant_except_break
            offset == k * cols,
            offset <= len,
            res@ == Seq::new(k, |i: int| (i * cols) as usize),
            flow_count(len as nat, cols as nat) == k + flow_count((len - offset) as nat, cols as nat),
        invariant
            cols > 0,
            len <= usize::MAX - cols,
        ensures
            res@ == flow_offsets(len as nat, cols as nat),
        decreases len - offset,
    {
        res.push(offset);
        let ghost rem: nat = (len - offset) as nat;
        proof {
            assert(res@ =~= Seq::new(k + 1, |i: int| (i * cols) as usize));
            assert((k + 1) * cols == k * cols + cols) by (nonlinear_arith);
        }
        let next = offset + cols;
        if next >= len {
            proof {
                assert(flow_count(rem, cols as nat) == 1);
                assert(res@ =~= flow_offsets(len as nat, cols as nat));
            }
            break;
        }
        proof {
            assert(flow_count(rem, cols as nat) == 1 + flow_count((rem - cols) as nat, cols as nat));
            k = k + 1;
        }
        offset = next;
    }
    res
}

/// Laying out covers the line: every cell lies in exactly the row whose
/// offset is the greatest one not past it, and that row holds it within
/// its `cols` columns; every row but the first of an empty line starts
/// inside the line.
pub proof fn lemma_flow_covers(len: nat, cols: nat, p: nat)
    requires
        cols > 0,
        p < len,
    ensures
        exists|i: int|
            0 <= i < flow_count(len, cols) && #[trigger] (i * cols) <= p && p < i * cols + cols,
        forall|i: int| 0 < i < flow_count(len, cols) ==> #[trigger] (i * cols) < len,
    decreases len,
{
    if p < cols {
        assert(0 * cols == 0);
        assert(0 * cols <= p && p < 0 * cols + cols);
    } else {
        lemma_flow_covers((len - cols) as nat, cols, (p - cols) as nat);
        let j = choose|j: int|
            0 <= j < flow_count((len - cols) as nat, cols) && #[trigger] (j * cols) <= p - cols && p - cols < j * cols + cols;
        assert((j + 1) * cols == j * cols + cols) by (nonlinear_arith);
        assert((j + 1) * cols <= p && p < (j + 1) * cols + cols);
    }
    lemma_flow_starts(len, cols);
}

/// Every line takes at least one row, an empty line too, and no more
/// rows than it has cells beyond the first.
pub proof fn lemma_flow_nonempty(len: nat, cols: nat)
    requires
        cols > 0,
    ensures
        1 <= flow_count(len, cols),
        flow_count(len, cols) <= if len == 0 { 1 } else { len },
    decreases len,
{
    if len > cols {
        lemma_flow_nonempty((len - cols) as nat, cols);
    }
}

/// Every row after the first starts inside the line.
proof fn lemma_flow_starts(len: nat, cols: nat)
    requires
        cols > 0,
    ensures
        forall|i: int| 0 < i < flow_count(len, cols) ==> #[trigger] (i * cols) < len,
    decreases len,
{
    if len > cols {
        lemma_flow_starts((len - cols) as nat, cols);
        assert forall|i: int| 0 < i < flow_count(len, cols) implies #[trigger] (i * cols) < len by {
            if i > 1 {
                assert((i - 1) * cols == i * cols - cols) by (nonlinear_arith);
                assert(((i - 1) * cols) < len - cols);
            } else {
                assert(1 * cols == cols);
            }
        }
    }
}

/// Where a row of the reflowed buffer comes from: the index of its line
/// and the offset of its first cell in that line.
#[derive(Clone, Copy, Debug, PartialEq, Eq, Structural)]
pub struct RowPlacement {
    pub line: usize,
    pub offset: usize,
}

/// The row of line `line` that starts at `offset`.
pub open spec fn placement(line: int, offset: int) -> RowPlacement {
    RowPlacement { line: line as usize, offset: offset as usize }
}

/// The rows of lines of lengths `lens`, line by line, in order.
pub open spec fn flowed(lens: Seq<usize>, cols: nat) -> Seq<RowPlacement>
    decreases lens.len(),
{
    if lens.len() == 0 {
        Seq::empty()
    } else {
        let k = lens.len() - 1;
        flowed(lens.drop_last(), cols) + Seq::new(
            flow_count(lens[k] as nat, cols),
            |i: int| placement(k, i * cols),
        )
    }
}

/// The scroll position clamped so the viewport does not run past the
/// oldest row: at most the number of rows beyond one screen.
pub open spec fn clamped_scroll(scroll_pos: int, n: int, rows: int) -> int {
    let max = if n >= rows { n - rows } else { 0 };
    if scroll_pos <= max {
        scroll_pos
    } else {
        max
    }
}

/// A terminal's buffer laid out anew: its rows, the scroll position
/// kept within them, and the range of rows the viewport shows.
#[derive(Debug)]
pub struct ReflowPlan {
    pub rows: Vec<RowPlacement>,
    pub scroll_pos: usize,
    pub visible_start: usize,
    pub visible_end: usize,
}

/// Lays out lines of lengths `line_lens` at `cols` columns for a
/// viewport of `rows` rows scrolled back by `scroll_pos`. A terminal
/// without columns or rows is left alone (`None`).
pub fn apply_reflow(cols: usize, rows: usize, scroll_pos: usize, line_lens: &Vec<usize>) -> (plan: Option<ReflowPlan>)
    requires
        forall|i: int| 0 <= i < line_lens@.len() ==> #[trigger] line_lens@[i] <= usize::MAX - cols,
    ensures
        plan is None <==> (cols == 0 || rows == 0),
        plan matches Some(p) ==> {
            &&& p.rows@ == flowed(line_lens@, cols as nat)
            &&& p.scroll_pos == clamped_scroll(scroll_pos as int, p.rows@.len() as int, rows as int)
            &&& p.visible_start == window_start(p.rows@.len() as int, p.scroll_pos as int, rows as int)
            &&& p.visible_end == window_end(p.rows@.len() as int, p.scroll_pos as int)
        },
{
    if cols == 0 || rows == 0 {
        return None;
    }
    let mut out: Vec<RowPlacement> = Vec::new();
    let mut l: usize = 0;
    while l < line_lens.len()
        invariant
            cols > 0,
            rows > 0,
            l <= line_lens@.len(),
            forall|i: int| 0 <= i < line_lens@.len() ==> #[trigger] line_lens@[i] <= usize::MAX - cols,
            out@ == flowed(line_lens@.take(l as int), cols as nat),
        decreases line_lens@.len() - l,
    {
        let offsets = flow_line(cols, rows, line_lens[l]);
        let ghost before = out@;
        let mut j: usize = 0;
        while j < offsets.len()
            invariant
                j <= offsets@.len(),
                offsets@ == flow_offsets(line_lens@[l as int] as nat, cols as nat),
                out@ == before + Seq::new(j as nat, |i: int| placement(l as int, i * cols)),
            decreases offsets@.len() - j,
        {
            out.push(RowPlacement { line: l, offset: offsets[j] });
            proof {
                assert(out@ =~= before + Seq::new((j + 1) as nat, |i: int| placement(l as int, i * cols)));
            }
            j = j + 1;
        }
        proof {
            let lt = line_lens@.take(l + 1);
            assert(lt.drop_last() =~= line_lens@.take(l as int));
            assert(lt[l as int] == line_lens@[l as int]);
        }
        l = l + 1;
    }
    assert(line_lens@.take(line_lens@.len() as int) =~= line_lens@);
    let n = out.len();
    let max = if n >= rows { n - rows } else { 0 };
    let pos = if scroll_pos <= max { scroll_pos } else { max };
    let (start, end) = viewport_window(n, pos, rows);
    Some(ReflowPlan { rows: out, scroll_pos: pos, visible_start: start, visible_end: end })
}

/// The range of `n` rows that a viewport of `rows` rows shows when
/// scrolled back by `scroll_pos`: the last `rows` rows once the newest
/// `scroll_pos` are skipped.
pub fn viewport_window(n: usize, scroll_pos: usize, rows: usize) -> (r: (usize, usize))
    ensures
        r.0 == window_start(n as int, scroll_pos as int, rows as int),
        r.1 == window_end(n as int, scroll_pos as int),
        r.0 <= r.1 <= n,
{
    let end = if scroll_pos >= n { 0 } else { n - scroll_pos };
    let start = if end >= rows { end - rows } else { 0 };
    (start, end)
}

/// The furthest a viewport of `rows` rows scrolls back over `n` rows.
pub open spec fn scroll_max(n: int, rows: int) -> int {
    if n >= rows {
        n - rows
    } else {
        0
    }
}

/// The scroll position after one viewport operation: a scroll moves
/// back by its delta, saturating, and is clamped to `max`; a jump goes
/// to the bottom.
pub open spec fn scroll_step(pos: usize, msg: TermViewportMsg, max: usize) -> usize {
    match msg {
        TermViewportMsg::Scroll { delta, .. } => {
            let moved = saturate_usize(pos - delta);
            if moved <= max {
                moved
            } else {
                max
            }
        },
        TermViewportMsg::JumpBottom { .. } => 0,
    }
}

/// `x` clamped to the range of `usize`.
pub open spec fn saturate_usize(x: int) -> usize {
    if x < 0 {
        0
    } else if x > usize::MAX {
        usize::MAX
    } else {
        x as usize
    }
}

/// The scroll position after the operations of `msgs`, in order.
pub open spec fn scroll_fold(pos: usize, msgs: Seq<TermViewportMsg>, max: usize) -> usize
    decreases msgs.len(),
{
    if msgs.len() == 0 {
        pos
    } else {
        scroll_step(scroll_fold(pos, msgs.drop_last(), max), msgs.last(), max)
    }
}

/// `pos` moved back by `delta` lines, saturating at 0 and `usize::MAX`.
pub fn sub_signed_saturating(pos: usize, delta: isize) -> (r: usize)
    ensures
        r == saturate_usize(pos - delta),
{
    if delta >= 0 {
        let d = delta as usize;
        if pos < d {
            0
        } else {
            pos - d
        }
    } else {
        let d: usize = if delta == isize::MIN {
            (isize::MAX as usize) + 1
        } else {
            (-delta) as usize
        };
        if pos > usize::MAX - d {
            usize::MAX
        } else {
            pos + d
        }
    }
}

/// The scroll position after one viewport operation (see
/// [`scroll_step`]).
pub fn apply_viewport_msg(pos: usize, msg: &TermViewportMsg, max: usize) -> (r: usize)
    ensures
        r == scroll_step(pos, *msg, max),
{
    match *msg {
        TermViewportMsg::Scroll { delta, .. } => {
            let moved = sub_signed_saturating(pos, delta);
            if moved <= max {
                moved
            } else {
                max
            }
        },
        TermViewportMsg::JumpBottom { .. } => 0,
    }
}

/// The scroll position after applying `msgs` in order to a viewport of
/// `rows` rows over `num_rows` rows, starting at `pos`.
pub fn apply_viewport_msgs(pos: usize, msgs: &std::collections::VecDeque<TermViewportMsg>, num_rows: usize, rows: usize) -> (r: usize)
    ensures
        r == scroll_fold(pos, msgs@, scroll_max(num_rows as int, rows as int) as usize),
{
    let max = if num_rows >= rows { num_rows - rows } else { 0 };
    let mut p = pos;
    let mut i: usize = 0;
    while i < msgs.len()
        invariant
            i <= msgs@.len(),
            max == scroll_max(num_rows as int, rows as int),
            p == scroll_fold(pos, msgs@.take(i as int), max),
        decreases msgs@.len() - i,
    {
        proof {
            assert(msgs@.take(i + 1).drop_last() =~= msgs@.take(i as int));
        }
        p = apply_viewport_msg(p, &msgs[i], max);
        i = i + 1;
    }
    assert(msgs@.take(msgs@.len() as int) =~= msgs@);
    p
}

/// After any viewport operation the scroll position is within the
/// buffer, and a jump puts it at the bottom.
pub proof fn lemma_scroll_step_bounded(pos: usize, msg: TermViewportMsg, max: usize)
    ensures
        scroll_step(pos, msg, max) <= max,
        msg is JumpBottom ==> scroll_step(pos, msg, max) == 0,
{
}

/// Scrolling back by `d` lines and then forward by `d` lines returns to
/// where the viewport was, when both moves stay within the buffer.
pub proof fn lemma_scroll_round_trip(term: EntityId, pos: usize, d: isize, max: usize)
    requires
        pos <= max,
        d != isize::MIN,
        0 <= pos - d <= max,
    ensures
        scroll_step(
            scroll_step(pos, TermViewportMsg::Scroll { term, delta: d }, max),
            TermViewportMsg::Scroll { term, delta: (-d) as isize },
            max,
        ) == pos,
{
}

} // verus!
