//! The order in which spawning a thread or forking a process moves each
//! resource into the new context, and what a failing step does to the rest.
//!
//! The library decides; the caller performs each step against the kernel and
//! reports how it went.
use vstd::prelude::*;

use crate::error::CloneError;

verus! {

/// Which kind of context is being made.
#[derive(Clone, Copy, Debug, PartialEq, Eq, Structural)]
pub enum Mode {
    /// A thread: address space, file table and signal actions are shared.
    Thread,
    /// A process: the address space is duplicated copy-on-write, the file
    /// table and signal actions are copied.
    Fork,
}

/// One step of the protocol.
#[derive(Clone, Copy, Debug, PartialEq, Eq, Structural)]
pub enum Step {
    /// Open a handle on the calling context.
    OpenCurrent,
    /// Create the new context and read its identifier back from its path.
    CreateContext,
    /// Map a fresh signal stack and record its top in the new context.
    AllocateSignalStack,
    /// Give the new context the caller's signal stack address.
    CopySignalStack,
    /// Copy the `name` attribute.
    CopyName,
    /// Copy the `cwd` attribute.
    CopyCwd,
    /// Point the new context at the caller's own address space.
    ShareAddressSpace,
    /// Point the new context at the caller's own file table.
    ShareFileTable,
    /// Point the new context at the caller's own signal-action table.
    ShareSignalActions,
    /// Give the new context an independent copy of the signal-action table.
    CopySignalActions,
    /// Derive the caller's file table and write it, with the new context's
    /// handle, onto the stack the new context resumes on.
    StashFileTable,
    /// Duplicate the address space copy-on-write, remap externally backed
    /// grants, and point the new context at the duplicate.
    DuplicateAddressSpace,
    /// Copy the environment registers.
    CopyEnvRegisters,
    /// Give the new context an independent copy of the stashed file table.
    CopyFileTable,
    /// Send the new context the continue signal.
    Resume,
    /// Wait for the new context to report that it runs.
    AwaitResumed,
}

pub open spec fn thread_step(i: int) -> Step {
    if i == 0 {
        Step::OpenCurrent
    } else if i == 1 {
        Step::CreateContext
    } else if i == 2 {
        Step::AllocateSignalStack
    } else if i == 3 {
        Step::CopyName
    } else if i == 4 {
        Step::CopyCwd
    } else if i == 5 {
        Step::ShareAddressSpace
    } else if i == 6 {
        Step::ShareFileTable
    } else if i == 7 {
        Step::ShareSignalActions
    } else if i == 8 {
        Step::CopyEnvRegisters
    } else if i == 9 {
        Step::Resume
    } else {
        Step::AwaitResumed
    }
}

pub open spec fn fork_step(i: int) -> Step {
    if i == 0 {
        Step::OpenCurrent
    } else if i == 1 {
        Step::CreateContext
    } else if i == 2 {
        Step::CopySignalStack
    } else if i == 3 {
        Step::CopyName
    } else if i == 4 {
        Step::CopyCwd
    } else if i == 5 {
        Step::CopySignalActions
    } else if i == 6 {
        Step::StashFileTable
    } else if i == 7 {
        Step::DuplicateAddressSpace
    } else if i == 8 {
        Step::CopyEnvRegisters
    } else if i == 9 {
        Step::CopyFileTable
    } else if i == 10 {
        Step::Resume
    } else {
        Step::AwaitResumed
    }
}

/// The steps of each protocol, in the order they are performed.
pub open spec fn plan(mode: Mode) -> Seq<Step> {
    match mode {
        Mode::Thread => Seq::new(11, |i: int| thread_step(i)),
        Mode::Fork => Seq::new(12, |i: int| fork_step(i)),
    }
}

/// Steps whose failure is tolerated: the register block may be absent, and
/// the final wait only drains a notification.
pub open spec fn is_best_effort(s: Step) -> bool {
    s == Step::CopyEnvRegisters || s == Step::AwaitResumed
}

/// Steps that write one of the new context's resource selectors.
pub open spec fn writes_selector(s: Step) -> bool {
    s == Step::ShareAddressSpace || s == Step::ShareFileTable || s == Step::ShareSignalActions
        || s == Step::CopySignalActions || s == Step::DuplicateAddressSpace || s
        == Step::CopyFileTable
}

/// What a finished protocol hands back to the caller: the new identifier for
/// a fork, zero for a thread.
pub open spec fn success_value(mode: Mode, pid: usize) -> usize {
    match mode {
        Mode::Thread => 0,
        Mode::Fork => pid,
    }
}

/// The state of one run of a protocol.
pub struct Orchestration {
    /// The protocol being run.
    pub mode: Mode,
    /// Index in the plan of the next step to perform.
    pub next: usize,
    /// Identifier of the new context, once it has been created.
    pub pid: usize,
    /// The error that stopped the run, if one did.
    pub failure: Option<CloneError>,
}

impl Orchestration {
    pub open spec fn wf(&self) -> bool {
        self.next <= plan(self.mode).len()
    }

    /// The step to perform now, if the run is still going.
    pub open spec fn pending(&self) -> Option<Step> {
        if self.failure is None && self.next < plan(self.mode).len() {
            Some(plan(self.mode)[self.next as int])
        } else {
            None
        }
    }

    /// What the run has come to, once it has.
    pub open spec fn outcome(&self) -> Option<Result<usize, CloneError>> {
        match self.failure {
            Some(e) => Some(Err(e)),
            None => if self.next >= plan(self.mode).len() {
                Some(Ok(success_value(self.mode, self.pid)))
            } else {
                None
            },
        }
    }

    /// The state after the pending step reported `step_result`.
    pub open spec fn advanced(self, step_result: Result<usize, CloneError>) -> Orchestration {
        let s = plan(self.mode)[self.next as int];
        match step_result {
            Ok(v) => Orchestration {
                next: (self.next + 1) as usize,
                pid: if s == Step::CreateContext {
                    v
                } else {
                    self.pid
                },
                ..self
            },
            Err(e) => if is_best_effort(s) {
                Orchestration { next: (self.next + 1) as usize, ..self }
            } else {
                Orchestration { failure: Some(e), ..self }
            },
        }
    }

    /// Starts a run of the protocol for `mode`.
    pub fn new(mode: Mode) -> (r: Orchestration)
        ensures
            r.wf(),
            r.mode == mode,
            r.next == 0,
            r.failure is None,
            r.pending() == Some(Step::OpenCurrent),
    {
        Orchestration { mode, next: 0, pid: 0, failure: None }
    }

    /// The step to perform now; `None` once the run has finished or failed.
    pub fn current(&self) -> (r: Option<Step>)
        requires
            self.wf(),
        ensures
            r == self.pending(),
            r is None <==> self.outcome() is Some,
    {
        if self.failure.is_some() {
            return None;
        }
        match self.mode {
            Mode::Thread => {
                if self.next >= 11 {
                    None
                } else {
                    Some(thread_step_at(self.next))
                }
            },
            Mode::Fork => {
                if self.next >= 12 {
                    None
                } else {
                    Some(fork_step_at(self.next))
                }
            },
        }
    }

    /// Records how the pending step went. For `CreateContext` the success
    /// value is the new identifier; for other steps it is not read. A failed
    /// step stops the run unless it is best-effort.
    pub fn complete(&mut self, step_result: Result<usize, CloneError>)
        requires
            old(self).wf(),
            old(self).pending() is Some,
        ensures
            final(self).wf(),
            *final(self) == old(self).advanced(step_result),
    {
        let s = match self.mode {
            Mode::Thread => thread_step_at(self.next),
            Mode::Fork => fork_step_at(self.next),
        };
        match step_result {
            Ok(v) => {
                if s == Step::CreateContext {
                    self.pid = v;
                }
                self.next = self.next + 1;
            },
            Err(e) => {
                if s == Step::CopyEnvRegisters || s == Step::AwaitResumed {
                    self.next = self.next + 1;
                } else {
                    self.failure = Some(e);
                }
            },
        }
    }

    /// What the run has come to: `None` while steps remain, else the value
    /// for the caller or the error that stopped it.
    pub fn result(&self) -> (r: Option<Result<usize, CloneError>>)
        requires
            self.wf(),
        ensures
            r == self.outcome(),
    {
        match self.failure {
            Some(e) => Some(Err(e)),
            None => {
                let len: usize = match self.mode {
                    Mode::Thread => 11,
                    Mode::Fork => 12,
                };
                if self.next >= len {
                    match self.mode {
                        Mode::Thread => Some(Ok(0)),
                        Mode::Fork => Some(Ok(self.pid)),
                    }
                } else {
                    None
                }
            },
        }
    }
}

/// A run that has performed no step yet.
pub open spec fn started(mode: Mode) -> Orchestration {
    Orchestration { mode, next: 0, pid: 0, failure: None }
}

/// The state reached from `o` when the steps report `results` in turn; results
/// beyond the end of the run are not read.
pub open spec fn run_from(o: Orchestration, results: Seq<Result<usize, CloneError>>) -> Orchestration
    decreases results.len(),
{
    if results.len() == 0 || o.pending() is None {
        o
    } else {
        run_from(o.advanced(results[0]), results.drop_first())
    }
}

proof fn lemma_run_keeps_mode(o: Orchestration, rs: Seq<Result<usize, CloneError>>)
    ensures
        run_from(o, rs).mode == o.mode,
    decreases rs.len(),
{
    if rs.len() > 0 && o.pending() is Some {
        lemma_run_keeps_mode(o.advanced(rs[0]), rs.drop_first());
    }
}

proof fn lemma_run_keeps_pid(o: Orchestration, rs: Seq<Result<usize, CloneError>>)
    requires
        o.wf(),
        o.failure is None,
    ensures
        ({
            let f = run_from(o, rs);
            f.failure is None && f.next > 1 ==> if o.next > 1 {
                f.pid == o.pid
            } else {
                1 - o.next < rs.len() && rs[1 - o.next] == Ok::<usize, CloneError>(f.pid)
            }
        }),
    decreases rs.len(),
{
    if rs.len() == 0 || o.pending() is None {
    } else {
        let o2 = o.advanced(rs[0]);
        if o2.failure is None {
            lemma_run_keeps_pid(o2, rs.drop_first());
        }
    }
}

/// A fork that succeeds hands its caller exactly the identifier read back
/// when the new context was created.
pub proof fn lemma_fork_returns_created_id(results: Seq<Result<usize, CloneError>>, v: usize)
    requires
        run_from(started(Mode::Fork), results).outcome() == Some(Ok::<usize, CloneError>(v)),
    ensures
        results.len() > 1,
        results[1] == Ok::<usize, CloneError>(v),
{
    let f = run_from(started(Mode::Fork), results);
    lemma_run_keeps_pid(started(Mode::Fork), results);
    lemma_run_keeps_mode(started(Mode::Fork), results);
}

proof fn lemma_best_effort_from(
    o: Orchestration,
    rs: Seq<Result<usize, CloneError>>,
    k: int,
    e: CloneError,
)
    requires
        o.wf(),
        0 <= k < rs.len(),
        o.next + k < plan(o.mode).len(),
        is_best_effort(plan(o.mode)[o.next + k]),
        rs[k] is Ok,
    ensures
        run_from(o, rs.update(k, Err(e))) == run_from(o, rs),
    decreases rs.len(),
{
    let rs2 = rs.update(k, Err(e));
    if o.pending() is None {
    } else if k == 0 {
        assert(rs2.drop_first() =~= rs.drop_first());
        assert(o.advanced(rs2[0]) == o.advanced(rs[0]));
        assert(run_from(o, rs2) == run_from(o.advanced(rs2[0]), rs2.drop_first()));
        assert(run_from(o, rs) == run_from(o.advanced(rs[0]), rs.drop_first()));
    } else {
        let o2 = o.advanced(rs[0]);
        assert(rs2[0] == rs[0]);
        assert(rs2.drop_first() =~= rs.drop_first().update(k - 1, Err(e)));
        assert(run_from(o, rs2) == run_from(o2, rs2.drop_first()));
        assert(run_from(o, rs) == run_from(o2, rs.drop_first()));
        if o2.failure is None {
            lemma_best_effort_from(o2, rs.drop_first(), k - 1, e);
        } else {
            assert(o2.pending() is None);
            assert(run_from(o2, rs2.drop_first()) == o2);
            assert(run_from(o2, rs.drop_first()) == o2);
        }
    }
}

/// A best-effort step (the register copy, the final wait) that fails leaves the
/// run exactly where the same step succeeding would have left it.
pub proof fn lemma_best_effort_tolerated(
    mode: Mode,
    results: Seq<Result<usize, CloneError>>,
    i: int,
    e: CloneError,
)
    requires
        0 <= i < results.len(),
        i < plan(mode).len(),
        is_best_effort(plan(mode)[i]),
        results[i] is Ok,
    ensures
        run_from(started(mode), results.update(i, Err(e))) == run_from(started(mode), results),
{
    lemma_best_effort_from(started(mode), results, i, e);
}

proof fn lemma_failure_from(o: Orchestration, rs: Seq<Result<usize, CloneError>>, k: int, e: CloneError)
    requires
        o.wf(),
        o.failure is None,
        0 <= k < rs.len(),
        o.next + k < plan(o.mode).len(),
        !is_best_effort(plan(o.mode)[o.next + k]),
        rs[k] == Err::<usize, CloneError>(e),
        forall|j: int| 0 <= j < k ==> (#[trigger] rs[j]) is Ok,
    ensures
        run_from(o, rs).failure == Some(e),
        run_from(o, rs).next == o.next + k,
    decreases rs.len(),
{
    let o2 = o.advanced(rs[0]);
    assert(run_from(o, rs) == run_from(o2, rs.drop_first()));
    if k == 0 {
        assert(o2.pending() is None);
        assert(run_from(o2, rs.drop_first()) == o2);
    } else {
        assert(rs[0] is Ok);
        assert forall|j: int| 0 <= j < k - 1 implies (#[trigger] rs.drop_first()[j]) is Ok by {
            assert(rs.drop_first()[j] == rs[j + 1]);
        }
        lemma_failure_from(o2, rs.drop_first(), k - 1, e);
    }
}

/// A mandatory step that fails, after every earlier step succeeded, ends the
/// run there with its error: no later step is performed.
pub proof fn lemma_mandatory_failure_stops(
    mode: Mode,
    results: Seq<Result<usize, CloneError>>,
    k: int,
    e: CloneError,
)
    requires
        0 <= k < results.len(),
        k < plan(mode).len(),
        !is_best_effort(plan(mode)[k]),
        results[k] == Err::<usize, CloneError>(e),
        forall|j: int| 0 <= j < k ==> (#[trigger] results[j]) is Ok,
    ensures
        run_from(started(mode), results).outcome() == Some(Err::<usize, CloneError>(e)),
        run_from(started(mode), results).next == k,
{
    lemma_failure_from(started(mode), results, k, e);
}

/// No step after the continue signal writes a selector: the new context never
/// runs with a selector still unset.
pub proof fn lemma_selectors_before_resume(mode: Mode, i: int, j: int)
    requires
        0 <= i < plan(mode).len(),
        0 <= j < plan(mode).len(),
        writes_selector(plan(mode)[i]),
        plan(mode)[j] == Step::Resume,
    ensures
        i < j,
{
}

/// A fork stashes the file table before the address space is duplicated, and
/// copies the file table after every other step that holds descriptors open,
/// just before the continue signal.
pub proof fn lemma_fork_file_table_order(i: int, j: int)
    requires
        0 <= i < plan(Mode::Fork).len(),
        0 <= j < plan(Mode::Fork).len(),
    ensures
        plan(Mode::Fork)[i] == Step::StashFileTable && plan(Mode::Fork)[j]
            == Step::DuplicateAddressSpace ==> i < j,
        plan(Mode::Fork)[j] == Step::CopyFileTable && plan(Mode::Fork)[i] != Step::CopyFileTable
            && plan(Mode::Fork)[i] != Step::Resume && plan(Mode::Fork)[i] != Step::AwaitResumed
            ==> i < j,
{
}

/// A thread shares the caller's address space, file table and signal actions
/// and copies none of them; a fork shares none of them.
pub proof fn lemma_sharing_by_mode(i: int)
    ensures
        0 <= i < plan(Mode::Thread).len() ==> plan(Mode::Thread)[i] != Step::DuplicateAddressSpace
            && plan(Mode::Thread)[i] != Step::CopyFileTable && plan(Mode::Thread)[i]
            != Step::CopySignalActions,
        0 <= i < plan(Mode::Fork).len() ==> plan(Mode::Fork)[i] != Step::ShareAddressSpace
            && plan(Mode::Fork)[i] != Step::ShareFileTable && plan(Mode::Fork)[i]
            != Step::ShareSignalActions,
        plan(Mode::Thread)[5] == Step::ShareAddressSpace,
        plan(Mode::Thread)[6] == Step::ShareFileTable,
        plan(Mode::Thread)[7] == Step::ShareSignalActions,
        plan(Mode::Fork)[7] == Step::DuplicateAddressSpace,
{
}

fn thread_step_at(i: usize) -> (r: Step)
    ensures
        r == thread_step(i as int),
{
    if i == 0 {
        Step::OpenCurrent
    } else if i == 1 {
        Step::CreateContext
    } else if i == 2 {
        Step::AllocateSignalStack
    } else if i == 3 {
        Step::CopyName
    } else if i == 4 {
        Step::CopyCwd
    } else if i == 5 {
        Step::ShareAddressSpace
    } else if i == 6 {
        Step::ShareFileTable
    } else if i == 7 {
        Step::ShareSignalActions
    } else if i == 8 {
        Step::CopyEnvRegisters
    } else if i == 9 {
        Step::Resume
    } else {
        Step::AwaitResumed
    }
}

fn fork_step_at(i: usize) -> (r: Step)
    ensures
        r == fork_step(i as int),
{
    if i == 0 {
        Step::OpenCurrent
    } else if i == 1 {
        Step::CreateContext
    } else if i == 2 {
        Step::CopySignalStack
    } else if i == 3 {
        Step::CopyName
    } else if i == 4 {
        Step::CopyCwd
    } else if i == 5 {
        Step::CopySignalActions
    } else if i == 6 {
        Step::StashFileTable
    } else if i == 7 {
        Step::DuplicateAddressSpace
    } else if i == 8 {
        Step::CopyEnvRegisters
    } else if i == 9 {
        Step::CopyFileTable
    } else if i == 10 {
        Step::Resume
    } else {
        Step::AwaitResumed
    }
}

} // verus!
