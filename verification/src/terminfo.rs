//! The public view of one terminal: its state in one place, with helpers
//! that look up its lines and rows and that build writes to it.
use vstd::prelude::*;

use crate::encode::{spans_ansi, term_writes_to_ansi};
use crate::io::{TermStdOut, TermWrite, VtWriteMsg};
use crate::term::{
    VtCursor, VtForegroundProcessTarget, VtLineTarget, VtModes, VtScrollPos, VtSize, VtTabStop, VtViewport,
};
use crate::EntityId;

verus! {

/// The index of the first entry keyed `id` in `keys`, if any.
pub open spec fn find_key(keys: Seq<EntityId>, id: EntityId) -> Option<int>
    decreases keys.len(),
{
    if keys.len() == 0 {
        None
    } else {
        match find_key(keys.drop_last(), id) {
            Some(i) => Some(i),
            None => if keys.last() == id {
                Some(keys.len() - 1)
            } else {
                None
            },
        }
    }
}

/// For each of `ids` in order, the index of its first entry in `keys`;
/// ids without an entry are skipped.
pub open spec fn lookup_many(ids: Seq<EntityId>, keys: Seq<EntityId>) -> Seq<usize>
    decreases ids.len(),
{
    if ids.len() == 0 {
        Seq::empty()
    } else {
        let rest = lookup_many(ids.drop_last(), keys);
        match find_key(keys, ids.last()) {
            Some(i) => rest.push(i as usize),
            None => rest,
        }
    }
}

/// The index of the first entry keyed `id` in `keys`, if any.
pub fn find_entry(keys: &Vec<EntityId>, id: EntityId) -> (r: Option<usize>)
    ensures
        r matches Some(i) ==> find_key(keys@, id) == Some(i as int) && i < keys@.len(),
        r is None ==> find_key(keys@, id) is None,
{
    let mut i: usize = 0;
    while i < keys.len()
        invariant
            i <= keys@.len(),
            find_key(keys@.take(i as int), id) is None,
        decreases keys@.len() - i,
    {
        proof {
            assert(keys@.take(i + 1).drop_last() =~= keys@.take(i as int));
        }
        if keys[i] == id {
            proof {
                lemma_find_key_prefix(keys@, i as int + 1, id);
            }
            return Some(i);
        }
        i = i + 1;
    }
    assert(keys@.take(keys@.len() as int) =~= keys@);
    None
}

/// An entry found in a prefix is found at the same place in the whole.
proof fn lemma_find_key_prefix(keys: Seq<EntityId>, n: int, id: EntityId)
    requires
        0 <= n <= keys.len(),
        find_key(keys.take(n), id) is Some,
    ensures
        find_key(keys, id) == find_key(keys.take(n), id),
    decreases keys.len() - n,
{
    if n < keys.len() {
        assert(keys.take(n + 1).drop_last() =~= keys.take(n));
        lemma_find_key_prefix(keys, n + 1, id);
    } else {
        assert(keys.take(n) =~= keys);
    }
}

/// For each of `ids`, the index of its entry in `keys`, skipping ids
/// without one.
pub fn lookup_entries(ids: &Vec<EntityId>, keys: &Vec<EntityId>) -> (r: Vec<usize>)
    ensures
        r@ == lookup_many(ids@, keys@),
{
    let mut out: Vec<usize> = Vec::new();
    let mut i: usize = 0;
    while i < ids.len()
        invariant
            i <= ids@.len(),
            out@ == lookup_many(ids@.take(i as int), keys@),
        decreases ids@.len() - i,
    {
        proof {
            assert(ids@.take(i + 1).drop_last() =~= ids@.take(i as int));
        }
        match find_entry(keys, ids[i]) {
            Some(k) => out.push(k),
            None => {},
        }
        i = i + 1;
    }
    assert(ids@.take(ids@.len() as int) =~= ids@);
    out
}

/// The rows of the lines `line_ids`, in line order: each line's row
/// targets, looked up among `targets`, and the rows among `rows`.
pub open spec fn rows_of(line_ids: Seq<EntityId>, target_keys: Seq<EntityId>, targets: Seq<Seq<EntityId>>, row_keys: Seq<EntityId>) -> Seq<usize>
    decreases line_ids.len(),
{
    if line_ids.len() == 0 {
        Seq::empty()
    } else {
        let rest = rows_of(line_ids.drop_last(), target_keys, targets, row_keys);
        match find_key(target_keys, line_ids.last()) {
            Some(t) => rest + lookup_many(targets[t], row_keys),
            None => rest,
        }
    }
}

/// The state of one terminal, read in one place.
#[derive(Debug)]
pub struct TermInfo {
    pub id: EntityId,
    pub cursor: VtCursor,
    pub modes: VtModes,
    pub line_target: VtLineTarget,
    pub viewport: VtViewport,
    pub size: VtSize,
    /// Whether the terminal has been laid out and takes input.
    pub ready: bool,
    pub scroll_pos: VtScrollPos,
    pub tab_stop: VtTabStop,
    pub fg_process: Option<VtForegroundProcessTarget>,
}

impl TermInfo {
    /// The terminal's lines in order, as indices into `line_keys`, the
    /// entities of the lines at hand; lines not at hand are skipped.
    pub fn lines(&self, line_keys: &Vec<EntityId>) -> (r: Vec<usize>)
        ensures
            r@ == lookup_many(self.line_target.0@, line_keys@),
    {
        lookup_entries(&self.line_target.0, line_keys)
    }

    /// The rows in the viewport, top first, as indices into `row_keys`.
    pub fn viewport_rows(&self, row_keys: &Vec<EntityId>) -> (r: Vec<usize>)
        ensures
            r@ == lookup_many(self.viewport.0@, row_keys@),
    {
        lookup_entries(&self.viewport.0, row_keys)
    }

    /// Every row of the terminal, line by line, as indices into
    /// `row_keys`; a line without row targets contributes none.
    pub fn rows(&self, target_keys: &Vec<EntityId>, targets: &Vec<Vec<EntityId>>, row_keys: &Vec<EntityId>) -> (r: Vec<usize>)
        requires
            target_keys@.len() == targets@.len(),
        ensures
            r@ == rows_of(self.line_target.0@, target_keys@, targets@.map_values(|t: Vec<EntityId>| t@), row_keys@),
    {
        let ghost tv = targets@.map_values(|t: Vec<EntityId>| t@);
        let ids = &self.line_target.0;
        let mut out: Vec<usize> = Vec::new();
        let mut i: usize = 0;
        while i < ids.len()
            invariant
                i <= ids@.len(),
                target_keys@.len() == targets@.len(),
                tv == targets@.map_values(|t: Vec<EntityId>| t@),
                out@ == rows_of(ids@.take(i as int), target_keys@, tv, row_keys@),
            decreases ids@.len() - i,
        {
            proof {
                assert(ids@.take(i + 1).drop_last() =~= ids@.take(i as int));
            }
            match find_entry(target_keys, ids[i]) {
                Some(t) => {
                    let mut found = lookup_entries(&targets[t], row_keys);
                    assert(tv[t as int] == targets@[t as int]@);
                    out.append(&mut found);
                },
                None => {},
            }
            i = i + 1;
        }
        assert(ids@.take(ids@.len() as int) =~= ids@);
        out
    }

    /// Bytes for this terminal's input stream.
    pub fn write(&self, value: &[u8]) -> (m: VtWriteMsg)
        ensures
            m.term == self.id,
            m.from is None,
            m.bytes@ == value@,
    {
        VtWriteMsg::new(self.id, vstd::slice::slice_to_vec(value))
    }

    /// Bytes for this terminal's input stream, written by `from`.
    pub fn write_from(&self, from: EntityId, value: &[u8]) -> (m: VtWriteMsg)
        ensures
            m.term == self.id,
            m.from == Some(from),
            m.bytes@ == value@,
    {
        VtWriteMsg::from_peer(self.id, from, vstd::slice::slice_to_vec(value))
    }

    /// Styled spans, encoded as ANSI, for this terminal's input stream.
    pub fn write_spans(&self, spans: Vec<TermWrite>) -> (m: VtWriteMsg)
        ensures
            m.term == self.id,
            m.from is None,
            m.bytes@ == spans_ansi(spans@),
    {
        VtWriteMsg::new(self.id, term_writes_to_ansi(spans))
    }

    /// Text as output to this terminal, from no particular program.
    pub fn write_via(&self, value: &str) -> (m: TermStdOut)
        ensures
            m.term == self.id,
            m.from == EntityId::spec_placeholder(),
            m.message@.len() == 1,
            m.message@[0].text@ == value@,
            m.message@[0].style is None,
            !m.message@[0].reset_style,
    {
        TermStdOut::write(self.id, value)
    }

    /// Styled spans as output to this terminal, from no particular
    /// program.
    pub fn write_spans_via(&self, spans: Vec<TermWrite>) -> (m: TermStdOut)
        ensures
            m.term == self.id,
            m.from == EntityId::spec_placeholder(),
            m.message@ == spans@,
    {
        TermStdOut { term: self.id, from: EntityId::placeholder(), message: spans }
    }
}

} // verus!
