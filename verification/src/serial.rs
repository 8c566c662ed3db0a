//! Serial execution queues: an ordered list of exec specifications that run
//! one at a time, advancing only when the direct child of the previously
//! dispatched element exits. The supervisor owns two, one for the init phase
//! and one for the deinit phase.

use vstd::prelude::*;
use crate::process::{ExecSpec, ProcessId};

verus! {

/// Which serial queue a minted process id belongs to.
#[derive(Clone, Copy, Debug, PartialEq, Eq, Structural)]
pub enum QueueKind {
    Init,
    Deinit,
}

/// The id minted for the `idx`-th element dispatched from a queue.
pub open spec fn spec_mint(kind: QueueKind, idx: usize) -> ProcessId {
    match kind {
        QueueKind::Init => ProcessId::Init(idx),
        QueueKind::Deinit => ProcessId::Deinit(idx),
    }
}

/// An ordered queue of exec specifications that must run one at a time. While
/// `activated` is false the queue is dormant: nothing is dispatched. Once
/// activated, the next element is dispatched exactly when the direct child of
/// the most recently dispatched element (`last_spawn`) exits.
#[derive(Clone, Debug)]
pub struct SerialExec {
    /// Prefix under which child ids are minted.
    pub base_id: QueueKind,
    /// Index of the next element to dispatch; minted ids count up from zero.
    pub idx: usize,
    /// Elements not yet dispatched, front first.
    pub execs: Vec<ExecSpec>,
    /// Id of the most recently dispatched element.
    pub last_spawn: Option<ProcessId>,
    pub activated: bool,
}

impl SerialExec {
    /// Indices stay within machine bounds: the index only ever advances by
    /// popping an element, so it is bounded by the work still queued.
    pub open spec fn wf(&self) -> bool {
        self.idx + self.execs@.len() <= usize::MAX
    }

    pub fn new(base_id: QueueKind, execs: Vec<ExecSpec>, activated: bool) -> (r: SerialExec)
        ensures
            r.wf(),
            r.base_id == base_id,
            r.idx == 0,
            r.execs == execs,
            r.last_spawn is None,
            r.activated == activated,
    {
        let n = execs.len();
        proof {
            assert(execs@.len() == n);
        }
        SerialExec { base_id, execs, idx: 0, last_spawn: None, activated }
    }

    pub fn activate(&mut self)
        ensures
            *final(self) == (SerialExec { activated: true, ..*old(self) }),
    {
        self.activated = true;
    }

    pub fn is_empty(&self) -> (r: bool)
        ensures
            r == (self.execs@.len() == 0),
    {
        self.execs.len() == 0
    }

    /// Dispatch the head element directly: mint its id, mark it as the last
    /// spawn, and hand it back. Used once when a phase begins and nothing has
    /// been dispatched yet.
    pub fn pop_front(&mut self) -> (r: Option<(ProcessId, ExecSpec)>)
        requires
            old(self).wf(),
        ensures
            final(self).wf(),
            old(self).execs@.len() == 0 ==> r is None && *final(self) == *old(self),
            old(self).execs@.len() > 0 ==> {
                &&& r == Some((spec_mint(old(self).base_id, old(self).idx), old(self).execs@[0]))
                &&& final(self).execs@ == old(self).execs@.drop_first()
                &&& final(self).idx == old(self).idx + 1
                &&& final(self).last_spawn == Some(spec_mint(old(self).base_id, old(self).idx))
                &&& final(self).base_id == old(self).base_id
                &&& final(self).activated == old(self).activated
            },
    {
        if self.execs.len() == 0 {
            return None;
        }
        let exec_id = mint_id(self.base_id, self.idx);
        let head = self.execs.remove(0);
        self.last_spawn = Some(exec_id);
        self.idx = self.idx + 1;
        Some((exec_id, head))
    }

    /// Advance the queue after the direct child of the named process `id`
    /// exited (`None` stands for an id that matches no dispatched element and
    /// merely kicks a freshly activated queue).
    ///
    /// Returns true exactly when the exited id is the queue's last dispatch
    /// and nothing is left: the serial phase is fully drained. A new element
    /// is dispatched (appended to `next_processes`) only when nothing was
    /// ever dispatched or the previously dispatched element's direct child is
    /// the one that exited.
    pub fn try_drain_proc_queue(
        &mut self,
        id: Option<&ProcessId>,
        next_processes: &mut Vec<(ProcessId, ExecSpec)>,
    ) -> (drained: bool)
        requires
            old(self).wf(),
        ensures
            final(self).wf(),
            final(self).base_id == old(self).base_id,
            final(self).activated == old(self).activated,
            drained == spec_drained(*old(self), spec_opt_id(id)),
            spec_dispatches(*old(self), spec_opt_id(id)) ==> {
                &&& final(self).execs@ == old(self).execs@.drop_first()
                &&& final(self).idx == old(self).idx + 1
                &&& final(self).last_spawn == Some(spec_mint(old(self).base_id, old(self).idx))
                &&& final(next_processes)@ == old(next_processes)@.push(
                    (spec_mint(old(self).base_id, old(self).idx), old(self).execs@[0]),
                )
            },
            !spec_dispatches(*old(self), spec_opt_id(id)) ==> {
                &&& *final(self) == *old(self)
                &&& *final(next_processes) == *old(next_processes)
            },
    {
        if !self.activated {
            return false;
        }
        let empty = self.is_empty();
        match self.last_spawn {
            Some(last_spawn) => {
                let id_matches = match id {
                    Some(p) => last_spawn == *p,
                    None => false,
                };
                if !id_matches {
                    false
                } else if empty {
                    true
                } else {
                    let exec_id = mint_id(self.base_id, self.idx);
                    let head = self.execs.remove(0);
                    self.last_spawn = Some(exec_id);
                    next_processes.push((exec_id, head));
                    self.idx = self.idx + 1;
                    false
                }
            },
            None => {
                if !empty {
                    let exec_id = mint_id(self.base_id, self.idx);
                    let head = self.execs.remove(0);
                    self.last_spawn = Some(exec_id);
                    next_processes.push((exec_id, head));
                    self.idx = self.idx + 1;
                }
                false
            },
        }
    }
}

/// The id the caller reported as exited, if any.
pub open spec fn spec_opt_id(id: Option<&ProcessId>) -> Option<ProcessId> {
    match id {
        Some(p) => Some(*p),
        None => None,
    }
}

/// The queue reports the phase as drained: it is activated, the reported id
/// is its most recent dispatch, and nothing is left to run.
pub open spec fn spec_drained(q: SerialExec, id: Option<ProcessId>) -> bool {
    &&& q.activated
    &&& q.last_spawn is Some
    &&& id == q.last_spawn
    &&& q.execs@.len() == 0
}

/// The queue dispatches its head element: it is activated, holds an element,
/// and either nothing was ever dispatched or the reported id is the most
/// recent dispatch (whose direct child has therefore exited).
pub open spec fn spec_dispatches(q: SerialExec, id: Option<ProcessId>) -> bool {
    &&& q.activated
    &&& q.execs@.len() > 0
    &&& (q.last_spawn is None || id == q.last_spawn)
}

/// Serialization law: elements of a serial queue run one at a time. After
/// a dispatch, the only exit report that can make the queue dispatch again
/// (or report itself drained) is the exit of exactly the element just
/// dispatched; until that element's direct child exits, nothing further
/// leaves the queue.
pub proof fn lemma_serialization(
    q0: SerialExec,
    q1: SerialExec,
    id0: Option<ProcessId>,
    id1: Option<ProcessId>,
)
    requires
        spec_dispatches(q0, id0),
        q1.base_id == q0.base_id,
        q1.idx == q0.idx + 1,
        q1.last_spawn == Some(spec_mint(q0.base_id, q0.idx)),
    ensures
        spec_dispatches(q1, id1) ==> id1 == Some(spec_mint(q0.base_id, q0.idx)),
        spec_drained(q1, id1) ==> id1 == Some(spec_mint(q0.base_id, q0.idx)),
{
}

/// Mint the id for the `idx`-th element of a queue.
pub fn mint_id(kind: QueueKind, idx: usize) -> (r: ProcessId)
    ensures
        r == spec_mint(kind, idx),
{
    match kind {
        QueueKind::Init => ProcessId::Init(idx),
        QueueKind::Deinit => ProcessId::Deinit(idx),
    }
}

} // verus!
