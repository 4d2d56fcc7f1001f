//! The relations between a terminal, its shell and the shell's jobs.
use vstd::prelude::*;

use crate::EntityId;

verus! {

/// Marks a shell entity, and holds the terminal it serves.
#[derive(Clone, Copy, Debug, PartialEq, Eq, Structural)]
pub struct Shell {
    pub term: EntityId,
}

/// The terminal side of [`Shell`]: the shell's entity.
#[derive(Clone, Copy, Debug, PartialEq, Eq, Structural)]
pub struct ShellTarget(EntityId);

impl ShellTarget {
    pub fn new(shell: EntityId) -> (t: ShellTarget)
        ensures
            t.spec_target() == shell,
    {
        ShellTarget(shell)
    }

    pub closed spec fn spec_target(&self) -> EntityId {
        self.0
    }

    pub fn target(&self) -> (t: EntityId)
        ensures
            t == self.spec_target(),
    {
        self.0
    }
}

/// Marks a process owned by a shell, and holds the shell.
#[derive(Clone, Copy, Debug, PartialEq, Eq, Structural)]
pub struct ShellJob(pub EntityId);

/// The shell side of [`ShellJob`].
#[derive(Clone, Copy, Debug, PartialEq, Eq, Structural)]
pub struct ShellJobTarget(EntityId);

impl ShellJobTarget {
    pub fn new(job: EntityId) -> (t: ShellJobTarget)
        ensures
            t.spec_job() == job,
    {
        ShellJobTarget(job)
    }

    pub closed spec fn spec_job(&self) -> EntityId {
        self.0
    }
}

/// The focused program of a shell: the shell itself or one of its jobs.
#[derive(Clone, Copy, Debug, PartialEq, Eq, Structural)]
pub struct ForegroundJob(pub EntityId);

/// The shell side of [`ForegroundJob`].
#[derive(Clone, Copy, Debug, PartialEq, Eq, Structural)]
pub struct ForegroundJobTarget(EntityId);

impl ForegroundJobTarget {
    pub fn new(job: EntityId) -> (t: ForegroundJobTarget)
        ensures
            t.spec_job() == job,
    {
        ForegroundJobTarget(job)
    }

    pub closed spec fn spec_job(&self) -> EntityId {
        self.0
    }
}

/// The processes whose output goes straight to the terminal; when it is
/// empty, the shell owns the terminal.
#[derive(Clone, Debug)]
pub struct ForegroundProcessGroup {
    processes: Vec<EntityId>,
}

impl ForegroundProcessGroup {
    pub closed spec fn spec_processes(&self) -> Seq<EntityId> {
        self.processes@
    }

    pub fn new(processes: Vec<EntityId>) -> (g: ForegroundProcessGroup)
        ensures
            g.spec_processes() == processes@,
    {
        ForegroundProcessGroup { processes }
    }

    pub fn processes(&self) -> (p: &Vec<EntityId>)
        ensures
            p@ == self.spec_processes(),
    {
        &self.processes
    }
}

impl Default for ForegroundProcessGroup {
    fn default() -> (g: ForegroundProcessGroup)
        ensures
            g.spec_processes() == Seq::<EntityId>::empty(),
    {
        ForegroundProcessGroup { processes: Vec::new() }
    }
}

/// Marks a process of the foreground group, and holds the shell that
/// owns the group.
#[derive(Clone, Copy, Debug, PartialEq, Eq, Structural)]
pub struct ForegroundProcess(EntityId);

impl ForegroundProcess {
    pub fn new(shell: EntityId) -> (p: ForegroundProcess)
        ensures
            p.spec_shell() == shell,
    {
        ForegroundProcess(shell)
    }

    pub closed spec fn spec_shell(&self) -> EntityId {
        self.0
    }

    pub fn shell(&self) -> (s: EntityId)
        ensures
            s == self.spec_shell(),
    {
        self.0
    }
}

} // verus!
