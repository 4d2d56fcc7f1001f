//! A verified model of a virtual terminal: its text buffer, cursor and
//! the handling of ANSI control sequences, plus the bookkeeping around
//! them (pending queues, scrolling, reflow and span layout).
use vstd::prelude::*;

pub mod text;
pub mod style;
pub mod term;
pub mod grid;
pub mod ansi;
pub mod fifo;
pub mod io;
pub mod encode;
pub mod events;
pub mod reflow;
pub mod terminfo;
pub mod ui;
pub mod shell;
pub mod process;
pub mod systems;

verus! {

/// Identifier of an ECS entity, carried as its raw bits.
#[derive(Clone, Copy, Debug, PartialEq, Eq, Structural, Hash)]
pub struct EntityId(pub u64);

impl EntityId {
    /// The identifier used for an entity that has not been assigned yet.
    pub open spec fn spec_placeholder() -> EntityId {
        EntityId(u64::MAX)
    }

    /// The identifier used for an entity that has not been assigned yet.
    pub fn placeholder() -> (id: EntityId)
        ensures
            id == EntityId::spec_placeholder(),
    {
        EntityId(u64::MAX)
    }
}

} // verus!
