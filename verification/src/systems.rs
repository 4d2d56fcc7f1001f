//! The decisions that the terminal's systems take each frame, apart from
//! the world they read and write.
use vstd::prelude::*;

use crate::events::TermViewportMsg;
use crate::events::TermScrollMsg;
use crate::io::{admitted_bytes, admitted_stream, BackgroundTerminalOutput, PendingTermInput, PendingTermScroll, TermStdOut, TermWrite, VtWriteMsg};
use crate::reflow::{apply_viewport_msgs, scroll_fold, scroll_max};
use crate::style::{default_style, VtCellStyle};
use crate::term::{VtForegroundProcessTarget, VtSize};
use crate::EntityId;

verus! {

/// The stages of a terminal's work in a frame, in the order they run:
/// outside input, measuring, processing, and preparing the display.
#[derive(Clone, Copy, Debug, PartialEq, Eq, Structural, Hash)]
pub enum TerminalSystems {
    Input,
    Measure,
    Process,
    Render,
}

/// `ids` with repeats dropped, first occurrences kept in order.
pub open spec fn dedup(ids: Seq<EntityId>) -> Seq<EntityId>
    decreases ids.len(),
{
    if ids.len() == 0 {
        Seq::empty()
    } else {
        let rest = dedup(ids.drop_last());
        if rest.contains(ids.last()) {
            rest
        } else {
            rest.push(ids.last())
        }
    }
}

/// The terminals that messages addressed, each once, in the order of
/// their first message.
pub fn dedup_targets(ids: &Vec<EntityId>) -> (out: Vec<EntityId>)
    ensures
        out@ == dedup(ids@),
{
    let mut out: Vec<EntityId> = Vec::new();
    let mut i: usize = 0;
    while i < ids.len()
        invariant
            i <= ids@.len(),
            out@ == dedup(ids@.take(i as int)),
        decreases ids@.len() - i,
    {
        proof {
            assert(ids@.take(i + 1).drop_last() =~= ids@.take(i as int));
        }
        let id = ids[i];
        let mut found = false;
        let mut j: usize = 0;
        while j < out.len()
            invariant
                j <= out@.len(),
                found == (exists|q: int| 0 <= q < j && out@[q] == id),
            decreases out@.len() - j,
        {
            if out[j] == id {
                found = true;
            }
            j = j + 1;
        }
        if !found {
            out.push(id);
        }
        i = i + 1;
    }
    assert(ids@.take(ids@.len() as int) =~= ids@);
    out
}

/// Deduplicating keeps every target and repeats none.
pub proof fn lemma_dedup(ids: Seq<EntityId>)
    ensures
        forall|x: EntityId| ids.contains(x) <==> #[trigger] dedup(ids).contains(x),
        forall|i: int, j: int| 0 <= i < j < dedup(ids).len() ==> dedup(ids)[i] != dedup(ids)[j],
    decreases ids.len(),
{
    if ids.len() > 0 {
        let init = ids.drop_last();
        let last = ids.last();
        lemma_dedup(init);
        let rest = dedup(init);
        let d = dedup(ids);
        assert forall|x: EntityId| ids.contains(x) implies #[trigger] d.contains(x) by {
            let k = choose|k: int| 0 <= k < ids.len() && ids[k] == x;
            if k == ids.len() - 1 {
                if !rest.contains(last) {
                    assert(d[d.len() - 1] == x);
                }
            } else {
                assert(init[k] == x);
                assert(init.contains(x));
                assert(rest.contains(x));
                let q = choose|q: int| 0 <= q < rest.len() && rest[q] == x;
                assert(d[q] == x);
            }
        }
        assert forall|x: EntityId| d.contains(x) implies ids.contains(x) by {
            let q = choose|q: int| 0 <= q < d.len() && d[q] == x;
            if q < rest.len() {
                assert(rest[q] == x);
                assert(rest.contains(x));
                assert(init.contains(x));
                let k = choose|k: int| 0 <= k < init.len() && init[k] == x;
                assert(ids[k] == x);
            } else {
                assert(ids[ids.len() - 1] == x);
            }
        }
    }
}

/// The byte budget of a terminal's ingress queue: none for a ready
/// terminal, `pending_cap` otherwise.
pub fn ingress_cap(ready: bool, pending_cap: usize) -> (cap: usize)
    ensures
        cap == (if ready { usize::MAX } else { pending_cap }),
{
    if ready {
        usize::MAX
    } else {
        pending_cap
    }
}

/// Whether output can be drawn on a terminal now: it resolves and has
/// room for at least one cell; otherwise the output is queued.
pub fn can_draw(resolved: bool, size: VtSize) -> (b: bool)
    ensures
        b == (resolved && size.cols > 0 && size.rows > 0),
{
    resolved && size.cols > 0 && size.rows > 0
}

/// The style a span starts with, if it sets one: its own style, or the
/// default style when it asks for a reset.
pub fn span_reset(w: &TermWrite) -> (s: Option<VtCellStyle>)
    ensures
        s == (match w.style {
            Some(st) => Some(st),
            None => if w.reset_style {
                Some(default_style())
            } else {
                None
            },
        }),
{
    match w.style {
        Some(st) => Some(st),
        None => if w.reset_style {
            Some(VtCellStyle::default())
        } else {
            None
        },
    }
}

/// Hands queued output and scrolling back to terminal `term` once it
/// resolves: the queued spans become one output message and the queued
/// delta one scroll message, and the queue is left empty. A terminal
/// that does not resolve keeps its queues.
pub fn drain_pending(term: EntityId, resolved: bool, input: &mut PendingTermInput, scroll: &mut PendingTermScroll) -> (r: (Option<TermStdOut>, Option<TermScrollMsg>))
    ensures
        resolved ==> {
            &&& r.0 matches Some(m) && m.term == term && m.from == EntityId::spec_placeholder() && m.message@ == old(input).writes@
            &&& r.1 == Some(TermScrollMsg { term, delta: old(scroll).delta })
            &&& final(input).writes@ == Seq::<TermWrite>::empty()
            &&& final(scroll).delta == 0
        },
        !resolved ==> r.0 is None && r.1 is None && *final(input) == *old(input) && *final(scroll) == *old(scroll),
{
    if !resolved {
        return (None, None);
    }
    let mut writes: Vec<TermWrite> = Vec::new();
    std::mem::swap(&mut writes, &mut input.writes);
    let delta = scroll.delta;
    scroll.delta = 0;
    (
        Some(TermStdOut { term, from: EntityId::placeholder(), message: writes }),
        Some(TermScrollMsg { term, delta }),
    )
}

/// The scroll position to store after applying `msgs` to a viewport of
/// `rows` rows over `num_rows` rows, starting at `pos`, if it changed.
pub fn apply_scroll(pos: usize, msgs: &std::collections::VecDeque<TermViewportMsg>, num_rows: usize, rows: usize) -> (r: Option<usize>)
    ensures
        ({
            let p = scroll_fold(pos, msgs@, scroll_max(num_rows as int, rows as int) as usize);
            r == (if p != pos { Some(p) } else { None })
        }),
{
    let p = apply_viewport_msgs(pos, msgs, num_rows, rows);
    if p != pos {
        Some(p)
    } else {
        None
    }
}

/// The bytes that reach a terminal from its queued writes under the
/// output policy, given its foreground process.
pub fn process_input(msgs: &std::collections::VecDeque<VtWriteMsg>, policy: BackgroundTerminalOutput, fg: Option<VtForegroundProcessTarget>) -> (out: Vec<u8>)
    ensures
        out@ == admitted_bytes(
            msgs@,
            policy,
            match fg {
                Some(t) => Some(t.spec_process()),
                None => None,
            },
        ),
{
    let foreground = match fg {
        Some(t) => Some(t.process()),
        None => None,
    };
    admitted_stream(msgs, policy, foreground)
}

} // verus!
