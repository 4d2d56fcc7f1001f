//! Messages that change what a terminal shows, and the queue that holds
//! viewport operations for a terminal that is not ready yet.
use vstd::prelude::*;

use crate::fifo::{evict_front, lemma_total_push, push_evict, total};
use crate::EntityId;

verus! {

/// An ordered operation on a terminal's viewport.
#[derive(Clone, Copy, Debug, PartialEq, Eq, Structural)]
pub enum TermViewportMsg {
    /// Scroll by a signed number of lines; positive scrolls toward
    /// older content.
    Scroll { term: EntityId, delta: isize },
    /// Jump to the bottom of the buffer.
    JumpBottom { term: EntityId },
}

impl TermViewportMsg {
    pub fn scroll(term: EntityId, delta: isize) -> (m: TermViewportMsg)
        ensures
            m == (TermViewportMsg::Scroll { term, delta }),
    {
        TermViewportMsg::Scroll { term, delta }
    }

    pub fn jump_bottom(term: EntityId) -> (m: TermViewportMsg)
        ensures
            m == (TermViewportMsg::JumpBottom { term }),
    {
        TermViewportMsg::JumpBottom { term }
    }

    /// The terminal the operation is for.
    pub open spec fn spec_term(self) -> EntityId {
        match self {
            TermViewportMsg::Scroll { term, .. } => term,
            TermViewportMsg::JumpBottom { term } => term,
        }
    }

    /// The terminal the operation is for.
    pub fn term(&self) -> (t: EntityId)
        ensures
            t == self.spec_term(),
    {
        match *self {
            TermViewportMsg::Scroll { term, .. } => term,
            TermViewportMsg::JumpBottom { term } => term,
        }
    }
}

/// A request to scroll a terminal by a signed number of lines.
#[derive(Clone, Copy, Debug, PartialEq, Eq, Structural)]
pub struct TermScrollMsg {
    pub term: EntityId,
    /// Positive scrolls toward older content.
    pub delta: isize,
}

impl TermScrollMsg {
    pub fn new(term: EntityId, delta: isize) -> (m: TermScrollMsg)
        ensures
            m == (TermScrollMsg { term, delta }),
    {
        TermScrollMsg { term, delta }
    }
}

/// A request to show the bottom of a terminal's buffer.
#[derive(Clone, Copy, Debug, PartialEq, Eq, Structural)]
pub struct TermJumpToBottomMsg {
    pub term: EntityId,
}

impl TermJumpToBottomMsg {
    pub fn new(term: EntityId) -> (m: TermJumpToBottomMsg)
        ensures
            m == (TermJumpToBottomMsg { term }),
    {
        TermJumpToBottomMsg { term }
    }
}

/// A request to reflow a terminal's buffer to its current size.
#[derive(Clone, Copy, Debug, PartialEq, Eq, Structural)]
pub struct TermReflowMsg {
    pub term: EntityId,
}

impl TermReflowMsg {
    pub fn new(term: EntityId) -> (m: TermReflowMsg)
        ensures
            m == (TermReflowMsg { term }),
    {
        TermReflowMsg { term }
    }
}

/// A request to redraw a terminal's user interface.
#[derive(Clone, Copy, Debug, PartialEq, Eq, Structural)]
pub struct TermRedrawRequestedMsg {
    pub term: EntityId,
}

impl TermRedrawRequestedMsg {
    pub fn new(term: EntityId) -> (m: TermRedrawRequestedMsg)
        ensures
            m == (TermRedrawRequestedMsg { term }),
    {
        TermRedrawRequestedMsg { term }
    }
}

/// The storage cost of one queued viewport operation: its size in
/// memory, so that the budget is in bytes.
pub open spec fn viewport_cost() -> spec_fn(TermViewportMsg) -> nat {
    |m: TermViewportMsg| vstd::layout::size_of::<TermViewportMsg>()
}

/// Viewport operations queued for a terminal, oldest first, bounded by
/// a byte budget.
#[derive(Debug)]
pub struct PendingTermViewportMsgs {
    msgs: std::collections::VecDeque<TermViewportMsg>,
    bytes: usize,
}

impl PendingTermViewportMsgs {
    /// The queued operations, oldest first.
    pub closed spec fn queued(&self) -> Seq<TermViewportMsg> {
        self.msgs@
    }

    /// The byte count the queue keeps.
    pub closed spec fn counted_bytes(&self) -> nat {
        self.bytes as nat
    }

    /// The byte count is that of the queued operations.
    pub closed spec fn wf(&self) -> bool {
        self.counted_bytes() == total(self.msgs@, viewport_cost())
    }

    /// Pushes `msg`, then evicts the oldest operations while the queue
    /// takes more than `cap` bytes and holds more than one operation.
    pub fn push(&mut self, msg: TermViewportMsg, cap: usize)
        requires
            old(self).wf(),
            total(old(self).queued(), viewport_cost()) + vstd::layout::size_of::<TermViewportMsg>() <= usize::MAX,
        ensures
            final(self).wf(),
            final(self).queued() == push_evict(old(self).queued(), msg, viewport_cost(), cap as nat),
    {
        let ghost before = self.msgs@;
        proof {
            lemma_total_push(before, msg, viewport_cost());
        }
        let n: usize = core::mem::size_of::<TermViewportMsg>();
        self.bytes = self.bytes + n;
        self.msgs.push_back(msg);
        while self.bytes > cap && self.msgs.len() > 1
            invariant
                evict_front(self.msgs@, viewport_cost(), cap as nat) == push_evict(
                    before,
                    msg,
                    viewport_cost(),
                    cap as nat,
                ),
                self.bytes == total(self.msgs@, viewport_cost()),
                self.msgs@.len() >= 1,
                n == vstd::layout::size_of::<TermViewportMsg>(),
            decreases self.msgs@.len(),
        {
            let ghost cur = self.msgs@;
            let popped = self.msgs.pop_front();
            proof {
                assert(self.msgs@ =~= cur.drop_first());
            }
            self.bytes = self.bytes - n;
        }
    }

    /// The queued operations, oldest first.
    pub fn messages(&self) -> (m: &std::collections::VecDeque<TermViewportMsg>)
        ensures
            m@ == self.queued(),
    {
        &self.msgs
    }

    /// The number of bytes the queued operations take.
    pub fn len_bytes(&self) -> (n: usize)
        requires
            self.wf(),
        ensures
            n == total(self.queued(), viewport_cost()),
            n == self.counted_bytes(),
    {
        self.bytes
    }

    /// Takes the queued operations out, leaving the queue empty.
    pub fn take(&mut self) -> (m: std::collections::VecDeque<TermViewportMsg>)
        ensures
            m@ == old(self).queued(),
            final(self).wf(),
            final(self).queued() == Seq::<TermViewportMsg>::empty(),
    {
        let mut out: std::collections::VecDeque<TermViewportMsg> = std::collections::VecDeque::new();
        std::mem::swap(&mut out, &mut self.msgs);
        self.bytes = 0;
        out
    }
}

impl Default for PendingTermViewportMsgs {
    fn default() -> (p: PendingTermViewportMsgs)
        ensures
            p.wf(),
            p.queued() == Seq::<TermViewportMsg>::empty(),
    {
        PendingTermViewportMsgs { msgs: std::collections::VecDeque::new(), bytes: 0 }
    }
}

/// The byte budget of a terminal's queue of viewport operations.
#[derive(Clone, Copy, Debug)]
pub struct PendingTermViewportCap(pub usize);

impl Default for PendingTermViewportCap {
    /// Sixty-four kibibytes.
    fn default() -> (c: PendingTermViewportCap)
        ensures
            c.0 == 65536,
    {
        PendingTermViewportCap(65536)
    }
}

} // verus!
