//! Input and output channels between the terminal and the programs that
//! run in it, and the queues that hold output for a terminal that cannot
//! take it yet.
use vstd::prelude::*;
use vstd::utf8::encode_utf8;

use crate::ansi::{decimal, push_decimal, ESC};
use crate::fifo::{evict_front, lemma_push_all_snoc, lemma_total_push, lemma_total_split, push_all, push_evict, total};
use crate::style::{default_style, VtCellStyle, VtColor};
use crate::EntityId;

verus! {

/// How the terminal sends input to the shell. Canonical mode (the
/// default) sends lines on submit; raw mode sends input unbuffered.
#[derive(Debug)]
pub enum LineDiscipline {
    Canonical { buffer: String },
    Raw,
}

impl Default for LineDiscipline {
    fn default() -> (d: LineDiscipline)
        ensures
            d matches LineDiscipline::Canonical { buffer } && buffer@ == Seq::<char>::empty(),
    {
        LineDiscipline::Canonical { buffer: String::new() }
    }
}

/// Keystrokes and the like sent to the terminal, interpreted by the
/// [`LineDiscipline`].
#[derive(Debug)]
pub enum TermInput {
    /// Text for the line discipline.
    Text(String),
    /// Submit the canonical buffer (typically a newline).
    Submit,
    /// Backspace.
    Erase,
    /// End of file (typically `^D`).
    Eof,
}

/// Input for the line discipline of a terminal.
#[derive(Debug)]
pub struct TermInputMsg {
    pub term: EntityId,
    pub input: TermInput,
}

/// Process signals, interpreted by jobs.
#[derive(Clone, Copy, Debug, PartialEq, Eq, Structural)]
pub enum SignalKind {
    /// SIGINT (`^C`).
    Int,
    /// SIGQUIT (`^\`).
    Quit,
    /// SIGTSTP (`^Z`).
    Tstp,
    /// SIGTERM.
    Term,
    /// SIGKILL.
    Kill,
    /// SIGHUP (terminal closed).
    Hup,
    /// SIGCONT (resume).
    Cont,
}

/// A signal for a job.
#[derive(Clone, Copy, Debug, PartialEq, Eq, Structural)]
pub struct SignalMsg {
    /// The terminal it came from.
    pub pty: EntityId,
    /// The job it is for.
    pub target: EntityId,
    pub signal: SignalKind,
}

/// Text flowing from the terminal toward a running program.
#[derive(Debug)]
pub struct TermStdIn {
    /// The terminal it comes from.
    pub term: EntityId,
    /// The job it is for.
    pub target: EntityId,
    /// The text; its interpretation is up to the consumer.
    pub message: String,
}

impl TermStdIn {
    pub fn new(term: EntityId, target: EntityId, msg: &str) -> (m: TermStdIn)
        ensures
            m.term == term,
            m.target == target,
            m.message@ == msg@,
    {
        TermStdIn { term, target, message: msg.to_owned() }
    }
}

/// A span of text to write to a terminal, with an optional style that
/// replaces the current one, or a request to go back to the default
/// style before the text.
#[derive(Debug)]
pub struct TermWrite {
    pub text: String,
    pub style: Option<VtCellStyle>,
    pub reset_style: bool,
}

impl TermWrite {
    pub fn new(text: &str) -> (w: TermWrite)
        ensures
            w.text@ == text@,
            w.style is None,
            !w.reset_style,
    {
        TermWrite { text: text.to_owned(), style: None, reset_style: false }
    }

    /// The span with `color` as its foreground; the background is the
    /// span's, or the default one.
    pub fn with_color(self, color: VtColor) -> (w: TermWrite)
        ensures
            w.text == self.text,
            w.reset_style == self.reset_style,
            w.style == Some(VtCellStyle {
                color,
                background: match self.style {
                    Some(s) => s.background,
                    None => default_style().background,
                },
            }),
    {
        let base = match self.style {
            Some(s) => s,
            None => VtCellStyle::default(),
        };
        TermWrite { style: Some(VtCellStyle { color, ..base }), ..self }
    }

    /// The span with `color` as its background; the foreground is the
    /// span's, or the default one.
    pub fn with_background(self, color: VtColor) -> (w: TermWrite)
        ensures
            w.text == self.text,
            w.reset_style == self.reset_style,
            w.style == Some(VtCellStyle {
                color: match self.style {
                    Some(s) => s.color,
                    None => default_style().color,
                },
                background: color,
            }),
    {
        let base = match self.style {
            Some(s) => s,
            None => VtCellStyle::default(),
        };
        TermWrite { style: Some(VtCellStyle { background: color, ..base }), ..self }
    }

    pub fn reset_style(self, reset_style: bool) -> (w: TermWrite)
        ensures
            w.text == self.text,
            w.style == self.style,
            w.reset_style == reset_style,
    {
        TermWrite { reset_style, ..self }
    }
}

/// The size of a span's text in UTF-8 bytes.
pub open spec fn span_bytes(w: TermWrite) -> nat {
    encode_utf8(w.text@).len()
}

/// [`span_bytes`] as the cost of a queue entry.
pub open spec fn span_cost() -> spec_fn(TermWrite) -> nat {
    |w: TermWrite| span_bytes(w)
}

/// The size of a span's text in UTF-8 bytes.
pub fn span_len(w: &TermWrite) -> (n: usize)
    requires
        span_bytes(*w) <= usize::MAX,
    ensures
        n == span_bytes(*w),
{
    let s: &str = w.text.as_str();
    s.len()
}

/// Writes to a terminal through output channel `CHANNEL` (1 for stdout,
/// 2 for stderr).
#[derive(Debug)]
pub struct TermOutputChannel<const CHANNEL: u8> {
    /// The terminal written to.
    pub term: EntityId,
    /// The spans to write, in order.
    pub writes: Vec<TermWrite>,
}

/// Writes to a terminal's standard error.
pub type TermStdErr = TermOutputChannel<2>;

impl<const CHANNEL: u8> TermOutputChannel<CHANNEL> {
    pub fn new(term: EntityId, writes: Vec<TermWrite>) -> (m: Self)
        ensures
            m.term == term,
            m.writes@ == writes@,
    {
        TermOutputChannel { term, writes }
    }

    /// A single plain span holding `value`.
    pub fn write(term: EntityId, value: &str) -> (m: Self)
        ensures
            m.term == term,
            m.writes@.len() == 1,
            m.writes@[0].text@ == value@,
            m.writes@[0].style is None,
            !m.writes@[0].reset_style,
    {
        let mut writes: Vec<TermWrite> = Vec::new();
        writes.push(TermWrite::new(value));
        TermOutputChannel { term, writes }
    }

    /// A line of text and a newline, written in the default style, with
    /// the styles cleared before and after it: the line's span asks for a
    /// reset, and an empty span asks for another one after it, so that
    /// SGR codes inside the line do not outlast it.
    pub fn writeln(term: EntityId, line: &str) -> (m: Self)
        ensures
            m.term == term,
            m.writes@.len() == 2,
            m.writes@[0].text@ == line@.push('\n'),
            m.writes@[0].style is None,
            m.writes@[0].reset_style,
            m.writes@[1].text@ == Seq::<char>::empty(),
            m.writes@[1].style is None,
            m.writes@[1].reset_style,
    {
        let mut text = String::from_str(line);
        crate::text::push_char(&mut text, '\n');
        let mut writes: Vec<TermWrite> = Vec::new();
        writes.push(TermWrite { text, style: None, reset_style: true });
        writes.push(TermWrite { text: String::new(), style: None, reset_style: true });
        TermOutputChannel { term, writes }
    }

    pub fn write_spans(term: EntityId, spans: Vec<TermWrite>) -> (m: Self)
        ensures
            m.term == term,
            m.writes@ == spans@,
    {
        TermOutputChannel { term, writes: spans }
    }
}

/// Spans flowing from a program into a terminal.
#[derive(Debug)]
pub struct TermStdOut {
    /// The terminal written to.
    pub term: EntityId,
    /// The program that wrote.
    pub from: EntityId,
    /// The spans, in order.
    pub message: Vec<TermWrite>,
}

impl TermStdOut {
    /// A single plain span holding `value`, from no particular program.
    pub fn write(term: EntityId, value: &str) -> (m: TermStdOut)
        ensures
            m.term == term,
            m.from == EntityId::spec_placeholder(),
            m.message@.len() == 1,
            m.message@[0].text@ == value@,
            m.message@[0].style is None,
            !m.message@[0].reset_style,
    {
        let mut message: Vec<TermWrite> = Vec::new();
        message.push(TermWrite::new(value));
        TermStdOut { term, from: EntityId::placeholder(), message }
    }
}

/// Output queued on a terminal that could not take it yet.
#[derive(Debug)]
pub struct PendingStdOut {
    pub msgs: std::collections::VecDeque<TermStdOut>,
}

impl Default for PendingStdOut {
    fn default() -> (p: PendingStdOut)
        ensures
            p.msgs@ == Seq::<TermStdOut>::empty(),
    {
        PendingStdOut { msgs: std::collections::VecDeque::with_capacity(1024) }
    }
}

/// Spans queued on a terminal that could not take them yet, bounded by
/// a byte budget (see [`PendingTermInput::push_writes`]).
#[derive(Debug)]
pub struct PendingTermInput {
    pub writes: Vec<TermWrite>,
}

impl Default for PendingTermInput {
    fn default() -> (p: PendingTermInput)
        ensures
            p.writes@ == Seq::<TermWrite>::empty(),
    {
        PendingTermInput { writes: Vec::new() }
    }
}

impl PendingTermInput {
    /// Pushes `new` onto the queue in order. After each push the oldest
    /// whole spans are evicted while the queue holds more than
    /// `cap_bytes` bytes of text and more than one span, so a span
    /// larger than the budget is still admitted on its own. Returns the
    /// number of spans evicted.
    pub fn push_writes(&mut self, new: Vec<TermWrite>, cap_bytes: usize) -> (evicted: usize)
        requires
            total(old(self).writes@, span_cost()) + total(new@, span_cost()) <= usize::MAX,
            old(self).writes@.len() + new@.len() <= usize::MAX,
        ensures
            final(self).writes@ == push_all(old(self).writes@, new@, span_cost(), cap_bytes as nat),
            evicted == old(self).writes@.len() + new@.len() - final(self).writes@.len(),
    {
        let ghost q0 = self.writes@;
        let ghost all = new@;
        proof {
            lemma_total_split(all, 0, span_cost());
        }
        let mut t: usize = total_span_len(&self.writes);
        let mut evicted: usize = 0;
        let mut rest = new;
        let mut i: usize = 0;
        assert(all.skip(0) =~= all);
        assert(all.take(0) =~= Seq::<TermWrite>::empty());
        while rest.len() > 0
            invariant
                i + rest@.len() == all.len(),
                rest@ == all.skip(i as int),
                self.writes@ == push_all(q0, all.take(i as int), span_cost(), cap_bytes as nat),
                t == total(self.writes@, span_cost()),
                t <= total(q0, span_cost()) + total(all.take(i as int), span_cost()),
                total(q0, span_cost()) + total(all, span_cost()) <= usize::MAX,
                q0.len() + all.len() <= usize::MAX,
                evicted + self.writes@.len() == q0.len() + i,
            decreases rest@.len(),
        {
            let span = rest.remove(0);
            let ghost before = self.writes@;
            proof {
                assert(span == all[i as int]);
                assert(all.take(i + 1) =~= all.take(i as int).push(span));
                lemma_push_all_snoc(q0, all.take(i as int), span, span_cost(), cap_bytes as nat);
                lemma_total_push(all.take(i as int), span, span_cost());
                lemma_total_split(all, i + 1, span_cost());
                lemma_total_push(before, span, span_cost());
                assert(rest@ =~= all.skip(i + 1));
            }
            let k: usize = span_len(&span);
            t = t + k;
            self.writes.push(span);
            i = i + 1;
            assert(self.writes@ == before.push(span));
            while t > cap_bytes && self.writes.len() > 1
                invariant
                    evict_front(self.writes@, span_cost(), cap_bytes as nat) == push_evict(before, span, span_cost(), cap_bytes as nat),
                    t == total(self.writes@, span_cost()),
                    t <= total(q0, span_cost()) + total(all.take(i as int), span_cost()),
                    evicted + self.writes@.len() == q0.len() + i,
                    q0.len() + all.len() <= usize::MAX,
                    i <= all.len(),
                    self.writes@.len() >= 1,
                decreases self.writes@.len(),
            {
                let ghost cur = self.writes@;
                let popped = self.writes.remove(0);
                proof {
                    assert(self.writes@ =~= cur.drop_first());
                    assert(popped == cur[0]);
                }
                let k: usize = span_len(&popped);
                t = t - k;
                evicted = evicted + 1;
            }
        }
        assert(all.take(all.len() as int) =~= all);
        evicted
    }
}

/// The total size of the texts of `q`, in bytes.
pub fn total_span_len(q: &Vec<TermWrite>) -> (n: usize)
    requires
        total(q@, span_cost()) <= usize::MAX,
    ensures
        n == total(q@, span_cost()),
{
    let mut n: usize = 0;
    let mut i: usize = 0;
    while i < q.len()
        invariant
            i <= q@.len(),
            total(q@, span_cost()) <= usize::MAX,
            n == total(q@.take(i as int), span_cost()),
        decreases q@.len() - i,
    {
        proof {
            assert(q@.take(i + 1) =~= q@.take(i as int).push(q@[i as int]));
            lemma_total_push(q@.take(i as int), q@[i as int], span_cost());
            lemma_total_split(q@, i + 1, span_cost());
        }
        let k: usize = span_len(&q[i]);
        n = n + k;
        i = i + 1;
    }
    assert(q@.take(q@.len() as int) =~= q@);
    n
}

} // verus!

verus! {

/// A signed line delta queued for a terminal that could not take it yet.
#[derive(Clone, Copy, Debug)]
pub struct PendingTermScroll {
    /// The accumulated delta.
    pub delta: isize,
}

impl Default for PendingTermScroll {
    fn default() -> (p: PendingTermScroll)
        ensures
            p.delta == 0,
    {
        PendingTermScroll { delta: 0 }
    }
}

/// `x` clamped to the range of `isize`.
pub open spec fn saturate_isize(x: int) -> int {
    if x > isize::MAX {
        isize::MAX as int
    } else if x < isize::MIN {
        isize::MIN as int
    } else {
        x
    }
}

impl PendingTermScroll {
    /// Adds `new` to the delta, saturating at the bounds of `isize`.
    pub fn add_delta(&mut self, new: isize)
        ensures
            final(self).delta == saturate_isize(old(self).delta + new),
    {
        self.delta = match self.delta.checked_add(new) {
            Some(d) => d,
            None => if new > 0 {
                isize::MAX
            } else {
                isize::MIN
            },
        };
    }
}

/// The byte budget of a [`PendingTermInput`] queue.
#[derive(Clone, Copy, Debug)]
pub struct PendingTermInputCap {
    /// Text bytes a queue may hold before its oldest spans are evicted.
    pub bytes: usize,
}

impl Default for PendingTermInputCap {
    /// One mebibyte.
    fn default() -> (c: PendingTermInputCap)
        ensures
            c.bytes == 1048576,
    {
        PendingTermInputCap { bytes: 1048576 }
    }
}

/// Bytes for a terminal's input stream, from a program or from nowhere
/// in particular.
#[derive(Clone, Debug)]
pub struct VtWriteMsg {
    /// The terminal written to.
    pub term: EntityId,
    /// The program that wrote, if any.
    pub from: Option<EntityId>,
    /// The bytes, in order.
    pub bytes: Vec<u8>,
}

impl VtWriteMsg {
    /// Bytes that come from no particular program.
    pub fn new(term: EntityId, bytes: Vec<u8>) -> (m: VtWriteMsg)
        ensures
            m.term == term,
            m.from is None,
            m.bytes@ == bytes@,
    {
        VtWriteMsg { term, from: None, bytes }
    }

    /// Bytes written by the program `from`.
    pub fn from_peer(term: EntityId, from: EntityId, bytes: Vec<u8>) -> (m: VtWriteMsg)
        ensures
            m.term == term,
            m.from == Some(from),
            m.bytes@ == bytes@,
    {
        VtWriteMsg { term, from: Some(from), bytes }
    }
}

/// The cost of a queued write: its number of bytes.
pub open spec fn chunk_cost() -> spec_fn(VtWriteMsg) -> nat {
    |m: VtWriteMsg| m.bytes@.len()
}

/// Writes queued for a terminal, oldest first, bounded by a byte budget.
#[derive(Debug)]
pub struct PendingVtWrites {
    chunks: std::collections::VecDeque<VtWriteMsg>,
    bytes: usize,
}

impl PendingVtWrites {
    /// The queued writes, oldest first.
    pub closed spec fn queued(&self) -> Seq<VtWriteMsg> {
        self.chunks@
    }

    /// The byte count the queue keeps.
    pub closed spec fn counted_bytes(&self) -> nat {
        self.bytes as nat
    }

    /// The byte count is that of the queued writes.
    pub closed spec fn wf(&self) -> bool {
        self.counted_bytes() == total(self.chunks@, chunk_cost())
    }

    /// Pushes `msg`, then evicts the oldest whole writes while the queue
    /// holds more than `cap` bytes and more than one write: the newest
    /// write is always kept.
    pub fn push(&mut self, msg: VtWriteMsg, cap: usize)
        requires
            old(self).wf(),
            total(old(self).queued(), chunk_cost()) + msg.bytes@.len() <= usize::MAX,
        ensures
            final(self).wf(),
            final(self).queued() == push_evict(old(self).queued(), msg, chunk_cost(), cap as nat),
    {
        let ghost before = self.chunks@;
        proof {
            lemma_total_push(before, msg, chunk_cost());
        }
        let n: usize = msg.bytes.len();
        self.bytes = self.bytes + n;
        self.chunks.push_back(msg);
        while self.bytes > cap && self.chunks.len() > 1
            invariant
                evict_front(self.chunks@, chunk_cost(), cap as nat) == push_evict(before, msg, chunk_cost(), cap as nat),
                self.bytes == total(self.chunks@, chunk_cost()),
                self.chunks@.len() >= 1,
            decreases self.chunks@.len(),
        {
            let ghost cur = self.chunks@;
            let popped = self.chunks.pop_front();
            match popped {
                Some(p) => {
                    proof {
                        assert(self.chunks@ =~= cur.drop_first());
                    }
                    let k: usize = p.bytes.len();
                    self.bytes = self.bytes - k;
                },
                None => {},
            }
        }
    }

    /// The number of queued bytes.
    pub fn len(&self) -> (n: usize)
        requires
            self.wf(),
        ensures
            n == total(self.queued(), chunk_cost()),
            n == self.counted_bytes(),
    {
        self.bytes
    }

    /// The queued writes, oldest first.
    pub fn chunks(&self) -> (c: &std::collections::VecDeque<VtWriteMsg>)
        ensures
            c@ == self.queued(),
    {
        &self.chunks
    }

    /// Takes the queued writes out, leaving the queue empty.
    pub fn take(&mut self) -> (c: std::collections::VecDeque<VtWriteMsg>)
        ensures
            c@ == old(self).queued(),
            final(self).wf(),
            final(self).queued() == Seq::<VtWriteMsg>::empty(),
    {
        let mut out: std::collections::VecDeque<VtWriteMsg> = std::collections::VecDeque::new();
        std::mem::swap(&mut out, &mut self.chunks);
        self.bytes = 0;
        out
    }
}

impl Default for PendingVtWrites {
    fn default() -> (p: PendingVtWrites)
        ensures
            p.wf(),
            p.queued() == Seq::<VtWriteMsg>::empty(),
    {
        PendingVtWrites { chunks: std::collections::VecDeque::new(), bytes: 0 }
    }
}

/// The byte budget of the queue of a terminal that is not ready yet.
#[derive(Clone, Copy, Debug)]
pub struct PendingVtWriteCap(pub usize);

impl Default for PendingVtWriteCap {
    /// One mebibyte.
    fn default() -> (c: PendingVtWriteCap)
        ensures
            c.0 == 1048576,
    {
        PendingVtWriteCap(1048576)
    }
}

/// Whether a terminal shows output from programs other than its
/// foreground process.
#[derive(Clone, Copy, Debug, PartialEq, Eq, Structural)]
pub enum BackgroundTerminalOutput {
    /// Show every write.
    Allow,
    /// Drop writes from a program that is not the foreground process.
    Suppress,
}

impl Default for BackgroundTerminalOutput {
    fn default() -> (p: BackgroundTerminalOutput)
        ensures
            p == BackgroundTerminalOutput::Allow,
    {
        BackgroundTerminalOutput::Allow
    }
}

/// Whether a write from `from` reaches a terminal whose foreground
/// process is `foreground`: under `Suppress`, only a write with a source
/// that differs from a known foreground process is dropped.
pub open spec fn admits(policy: BackgroundTerminalOutput, from: Option<EntityId>, foreground: Option<EntityId>) -> bool {
    ||| policy == BackgroundTerminalOutput::Allow
    ||| from is None
    ||| foreground is None
    ||| from == foreground
}

/// Whether `msg` reaches the terminal (see [`admits`]).
pub fn admitted(policy: BackgroundTerminalOutput, msg: &VtWriteMsg, foreground: Option<EntityId>) -> (b: bool)
    ensures
        b == admits(policy, msg.from, foreground),
{
    match policy {
        BackgroundTerminalOutput::Allow => true,
        BackgroundTerminalOutput::Suppress => match (msg.from, foreground) {
            (Some(f), Some(g)) => f.0 == g.0,
            _ => true,
        },
    }
}

/// The bytes that reach the terminal of `msgs`, in order: the bytes of
/// each admitted write, concatenated.
pub open spec fn admitted_bytes(msgs: Seq<VtWriteMsg>, policy: BackgroundTerminalOutput, foreground: Option<EntityId>) -> Seq<u8>
    decreases msgs.len(),
{
    if msgs.len() == 0 {
        Seq::empty()
    } else {
        let rest = admitted_bytes(msgs.drop_last(), policy, foreground);
        if admits(policy, msgs.last().from, foreground) {
            rest + msgs.last().bytes@
        } else {
            rest
        }
    }
}

/// Concatenates the bytes of the admitted writes of `msgs`, in order.
pub fn admitted_stream(msgs: &std::collections::VecDeque<VtWriteMsg>, policy: BackgroundTerminalOutput, foreground: Option<EntityId>) -> (out: Vec<u8>)
    ensures
        out@ == admitted_bytes(msgs@, policy, foreground),
{
    let mut out: Vec<u8> = Vec::new();
    let mut i: usize = 0;
    while i < msgs.len()
        invariant
            i <= msgs@.len(),
            out@ == admitted_bytes(msgs@.take(i as int), policy, foreground),
        decreases msgs@.len() - i,
    {
        let m = &msgs[i];
        proof {
            assert(msgs@.take(i + 1).drop_last() =~= msgs@.take(i as int));
            assert(msgs@.take(i + 1).last() == m);
        }
        if admitted(policy, m, foreground) {
            let mut j: usize = 0;
            let ghost start = out@;
            while j < m.bytes.len()
                invariant
                    j <= m.bytes@.len(),
                    out@ == start + m.bytes@.take(j as int),
                decreases m.bytes@.len() - j,
            {
                out.push(m.bytes[j]);
                j = j + 1;
                assert(out@ =~= start + m.bytes@.take(j as int));
            }
            assert(m.bytes@.take(j as int) =~= m.bytes@);
        }
        i = i + 1;
    }
    assert(msgs@.take(msgs@.len() as int) =~= msgs@);
    out
}

/// Bytes that a terminal sends back to the program it serves, such as
/// the answer to a status report.
#[derive(Clone, Debug)]
pub struct VtReplyMsg {
    /// The terminal that answers.
    pub term: EntityId,
    /// The bytes of the answer.
    pub bytes: Vec<u8>,
}

impl VtReplyMsg {
    pub fn new(term: EntityId, bytes: Vec<u8>) -> (m: VtReplyMsg)
        ensures
            m.term == term,
            m.bytes@ == bytes@,
    {
        VtReplyMsg { term, bytes }
    }
}

} // verus!
