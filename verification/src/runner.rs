//! The supervisor state machine. It owns the process registry, the init and
//! deinit serial queues, the lifecycle flags and the pending-spawn queue, and
//! turns kernel process events, timer and kill events and control requests
//! into state updates plus a list of actions for the driver to perform.
//!
//! The driver (the event loop around the kernel event queue) performs all
//! I/O: it spawns processes, posts kernel-queue registrations, fires
//! notifications and writes sockets, exactly as instructed by the returned
//! `Action` values.

use vstd::prelude::*;
use crate::process::{ExecSpec, ProcessId, ProcessStat, SpawnInfo};
use crate::registry;
use crate::registry::{spec_lookup, spec_tree_index};
use crate::serial::{QueueKind, SerialExec};

verus! {

/// Seconds the final deinit's tree is given to drain after its direct child
/// exited, before the supervisor gives up and terminates.
pub const DEINIT_GRACE_SECONDS: u64 = 15;

/// An effect the driver must perform on the supervisor's behalf.
pub enum Action {
    /// Register a kernel watch for exit and fork notifications on this pid.
    WatchPid(u32),
    /// Register a kernel watch for readability of this control socket.
    WatchFd(i32),
    /// Arm the one-shot deinit grace timer, in seconds.
    ArmDeinitTimer(u64),
    /// Fire the notification object behind this descriptor.
    Notify(i32),
    /// Reap the zombie of this exited direct child.
    Reap(u32),
    /// Send a response on this control socket: a numeric status and an
    /// already serialized JSON body, to be framed by the codec.
    Respond { fd: i32, status: u64, body: String },
    /// Spawn an ad-hoc process for a control-stream request and report the
    /// outcome back through the spawn recording entry points; respond on
    /// `fd`.
    SpawnAdhoc { fd: i32, id: ProcessId, exec_spec: ExecSpec, notify: Option<i32> },
    /// Overwrite the container's hosts file with this content and respond on
    /// `reply_fd`.
    WriteHostsFile { content: String, reply_fd: i32 },
    /// Kill the container's jail during cleanup.
    KillJail(i32),
}

/// A kernel process-filter event, already decoded by the driver.
pub enum PidEvent {
    /// The process `pid` exited with `exit_code`.
    Exited { pid: u32, exit_code: i32 },
    /// `parent` forked the new process `pid`.
    ChildForked { pid: u32, parent: u32 },
}

/// Status record of one named process as the supervisor tracks it.
#[derive(Debug)]
pub struct ProcessRunnerStat {
    pub id: ProcessId,
    pub pid: u32,
    pub process_stat: ProcessStat,
    /// Descriptor of the notification fired once the whole tree has exited.
    pub notify: Option<i32>,
}

impl ProcessRunnerStat {
    pub fn pid(&self) -> (r: u32)
        ensures
            r == self.pid,
    {
        self.pid
    }

    pub fn id(&self) -> (r: ProcessId)
        ensures
            r == self.id,
    {
        self.id
    }

    /// Record the direct child's exit code; monotonic.
    pub fn set_exited(&mut self, exit_code: i32)
        ensures
            old(self).process_stat.exited is None ==> final(self).process_stat.exited == Some(
                exit_code,
            ),
            old(self).process_stat.exited is Some ==> final(self).process_stat.exited == old(
                self,
            ).process_stat.exited,
            final(self).process_stat.exec_spec == old(self).process_stat.exec_spec,
            final(self).process_stat.spawn_info == old(self).process_stat.spawn_info,
            final(self).process_stat.tree_exited == old(self).process_stat.tree_exited,
            final(self).id == old(self).id,
            final(self).pid == old(self).pid,
            final(self).notify == old(self).notify,
    {
        self.process_stat.set_exited(exit_code);
    }

    /// Record that the whole tree has exited; monotonic.
    pub fn set_tree_exited(&mut self)
        ensures
            final(self).process_stat.tree_exited,
            final(self).process_stat.exec_spec == old(self).process_stat.exec_spec,
            final(self).process_stat.spawn_info == old(self).process_stat.spawn_info,
            final(self).process_stat.exited == old(self).process_stat.exited,
            final(self).id == old(self).id,
            final(self).pid == old(self).pid,
            final(self).notify == old(self).notify,
    {
        self.process_stat.set_tree_exited();
    }
}

/// The container the supervisor runs, as the core sees it: configuration,
/// lifecycle protos and the externally visible timestamps.
pub struct RunningContainer {
    /// Container name, used in published socket and log paths.
    pub name: String,
    /// Container root directory on the host.
    pub root: String,
    /// Jail id.
    pub jid: i32,
    /// The container's programs need the Linux ABI.
    pub linux: bool,
    pub init_norun: bool,
    pub main_norun: bool,
    pub deinit_norun: bool,
    /// Do not terminate after main's tree exits.
    pub persist: bool,
    pub init_proto: Vec<ExecSpec>,
    pub main_proto: Option<ExecSpec>,
    pub deinit_proto: Vec<ExecSpec>,
    /// Notification fired when main has been spawned.
    pub main_started_notify: Option<i32>,
    /// Notification fired when the container has been destroyed.
    pub destroyed_notify: Option<i32>,
    /// Epoch seconds of cleanup; set exactly once, by cleanup.
    pub destroyed: Option<u64>,
}

/// The logical ancestor `pmap` attributes a pid to: the value of its entry,
/// or the pid itself when it has none. Because every tracked descendant maps
/// directly to its logical ancestor (the map is kept flattened), one lookup
/// step reaches the top of the chain.
pub open spec fn spec_ancestor(pm: Seq<(u32, u32)>, pid: u32) -> u32 {
    match spec_lookup(pm, pid) {
        Some(a) => a,
        None => pid,
    }
}

/// Index of the first named process whose direct child is `pid`, if any.
pub open spec fn spec_first_named(named: Seq<ProcessRunnerStat>, pid: u32) -> Option<int>
    decreases named.len(),
{
    if named.len() == 0 {
        None
    } else if named[0].pid == pid {
        Some(0int)
    } else {
        match spec_first_named(named.drop_first(), pid) {
            Some(i) => Some(i + 1),
            None => None,
        }
    }
}

/// The first-named index is `Some` exactly when some named process has this
/// direct-child pid.
pub proof fn lemma_first_named(named: Seq<ProcessRunnerStat>, pid: u32)
    ensures
        spec_first_named(named, pid) is Some <==> exists|i: int|
            0 <= i < named.len() && named[i].pid == pid,
        match spec_first_named(named, pid) {
            Some(t) => 0 <= t < named.len() && named[t].pid == pid && forall|j: int|
                0 <= j < t ==> named[j].pid != pid,
            None => true,
        },
    decreases named.len(),
{
    if named.len() > 0 && named[0].pid != pid {
        lemma_first_named(named.drop_first(), pid);
        if spec_first_named(named.drop_first(), pid) is Some {
            let t = spec_first_named(named.drop_first(), pid)->0;
            assert forall|j: int| 0 <= j < t + 1 implies named[j].pid != pid by {
                if j >= 1 {
                    assert(named.drop_first()[j - 1].pid != pid);
                }
            }
        } else {
            if exists|i: int| 0 <= i < named.len() && named[i].pid == pid {
                let i = choose|i: int| 0 <= i < named.len() && named[i].pid == pid;
                assert(named.drop_first()[i - 1].pid == pid);
            }
        }
    }
}

/// A supervisor that differs from a well-formed one only by having lost
/// every trace of one pid from its registry is well-formed again.
proof fn lemma_registry_wf_after_untrack(pre: ProcessRunner, post: ProcessRunner, pid: u32)
    requires
        pre.wf(),
        post.named_process@ == pre.named_process@,
        post.inits == pre.inits,
        post.deinits == pre.deinits,
        spec_lookup(post.pmap@, pid) is None,
        forall|k: u32| k != pid ==> spec_lookup(post.pmap@, k) == spec_lookup(pre.pmap@, k),
        forall|i: int, j: int| 0 <= i < j < post.pmap@.len() ==> post.pmap@[i].0 != post.pmap@[j].0,
        forall|i1: int|
            0 <= i1 < post.pmap@.len() ==> exists|i0: int|
                0 <= i0 < pre.pmap@.len() && pre.pmap@[i0] == #[trigger] post.pmap@[i1],
        post.rpmap@.len() == pre.rpmap@.len(),
        forall|t: int|
            0 <= t < pre.rpmap@.len() ==> #[trigger] post.rpmap@[t].0 == pre.rpmap@[t].0,
        forall|t: int, j: int|
            0 <= t < post.rpmap@.len() && 0 <= j < post.rpmap@[t].1@.len()
                ==> #[trigger] post.rpmap@[t].1@[j] != pid && pre.rpmap@[t].1@.contains(
                post.rpmap@[t].1@[j],
            ),
    ensures
        post.wf(),
{
    let pm0 = pre.pmap@;
    let pm1 = post.pmap@;
    let rm0 = pre.rpmap@;
    let rm1 = post.rpmap@;
    assert forall|i: int| 0 <= i < pm1.len() implies spec_lookup(
        pm1,
        #[trigger] pm1[i].1,
    ) is None by {
        let i0 = choose|i0: int| 0 <= i0 < pm0.len() && pm0[i0] == pm1[i];
        assert(spec_lookup(pm0, pm0[i0].1) is None);
        if pm1[i].1 != pid {
            assert(spec_lookup(pm1, pm1[i].1) == spec_lookup(pm0, pm1[i].1));
        }
    }
    assert forall|i: int| 0 <= i < pm1.len() implies spec_tree_index(
        rm1,
        #[trigger] pm1[i].1,
    ) is Some by {
        let i0 = choose|i0: int| 0 <= i0 < pm0.len() && pm0[i0] == pm1[i];
        assert(spec_tree_index(rm0, pm0[i0].1) is Some);
        registry::lemma_tree_index(rm0, pm1[i].1);
        let t = choose|t: int| 0 <= t < rm0.len() && rm0[t].0 == pm1[i].1;
        assert(rm1[t].0 == pm1[i].1);
        registry::lemma_tree_index(rm1, pm1[i].1);
    }
    assert forall|t: int| 0 <= t < rm1.len() implies spec_lookup(
        pm1,
        #[trigger] rm1[t].0,
    ) is None by {
        assert(spec_lookup(pm0, rm0[t].0) is None);
        if rm1[t].0 != pid {
            assert(spec_lookup(pm1, rm1[t].0) == spec_lookup(pm0, rm1[t].0));
        }
    }
    assert forall|t: int, j: int|
        0 <= t < rm1.len() && 0 <= j < rm1[t].1@.len() implies (#[trigger] rm1[t].1@[j]
        == rm1[t].0 || spec_lookup(pm1, rm1[t].1@[j]) == Some(rm1[t].0)) by {
        let x = rm1[t].1@[j];
        assert(pre.rpmap@[t].1@.contains(x));
        let j0 = choose|j0: int| 0 <= j0 < rm0[t].1@.len() && rm0[t].1@[j0] == x;
        assert(rm0[t].1@[j0] == rm0[t].0 || spec_lookup(pm0, rm0[t].1@[j0]) == Some(rm0[t].0));
        assert(x != pid);
        assert(spec_lookup(pm1, x) == spec_lookup(pm0, x));
    }
    assert forall|t: int| 0 <= t < rm1.len() implies spec_first_named(
        post.named_process@,
        #[trigger] rm1[t].0,
    ) is Some by {
        assert(spec_first_named(pre.named_process@, rm0[t].0) is Some);
    }
}

/// Two equally long name lists with the same pids find the same processes.
proof fn lemma_first_named_same_pids(a: Seq<ProcessRunnerStat>, b: Seq<ProcessRunnerStat>)
    requires
        a.len() == b.len(),
        forall|k: int| 0 <= k < a.len() ==> (#[trigger] b[k]).pid == a[k].pid,
    ensures
        forall|p: u32|
            spec_first_named(a, p) is Some ==> (#[trigger] spec_first_named(b, p)) is Some,
{
    assert forall|p: u32|
        spec_first_named(a, p) is Some implies spec_first_named(b, p) is Some by {
        lemma_first_named(a, p);
        let w = choose|w: int| 0 <= w < a.len() && a[w].pid == p;
        assert(b[w].pid == p);
        lemma_first_named(b, p);
    }
}

/// Position of the first named process whose direct child is `pid`.
fn first_named_position(named: &Vec<ProcessRunnerStat>, pid: u32) -> (r: Option<usize>)
    ensures
        match r {
            Some(i) => spec_first_named(named@, pid) == Some(i as int),
            None => spec_first_named(named@, pid) is None,
        },
{
    let n = named.len();
    let mut i: usize = 0;
    while i < n
        invariant
            n == named@.len(),
            i <= n,
            forall|j: int| 0 <= j < i ==> named@[j].pid != pid,
        decreases n - i,
    {
        if named[i].pid == pid {
            proof {
                lemma_first_named(named@, pid);
            }
            return Some(i);
        }
        i += 1;
    }
    proof {
        lemma_first_named(named@, pid);
    }
    None
}

/// POSIX I/O error number, the status reported when an ad-hoc spawn fails.
pub const EIO: u64 = 5;

/// The response body reported when an ad-hoc spawn fails.
pub fn spawn_error_body() -> (r: String)
    ensures
        r@ == "{\"message\":\"failed to spawn\"}"@,
{
    proof {
        reveal_strlit("{\"message\":\"failed to spawn\"}");
    }
    String::from_str("{\"message\":\"failed to spawn\"}")
}

/// The actions gained exactly one success response with a `null` body on
/// this descriptor.
pub open spec fn spec_pushed_ok_response(pre: Seq<Action>, post: Seq<Action>, fd: i32) -> bool {
    &&& post.len() == pre.len() + 1
    &&& post.take(pre.len() as int) == pre
    &&& (post.last() matches Action::Respond { fd: f2, status, body } && f2 == fd && status == 0
        && body@ == "null"@)
}

/// The JSON body of an empty success response.
pub fn null_body() -> (r: String)
    ensures
        r@ == "null"@,
{
    proof {
        reveal_strlit("null");
    }
    String::from_str("null")
}

/// A control request, decoded from a control-stream packet.
pub enum ControlRequest {
    /// Spawn an ad-hoc process.
    Exec(ExecSpec),
    /// Enqueue the container's main process.
    RunMain,
    /// Run the start transition.
    Start,
    /// Overwrite the container's hosts file with these entries.
    WriteHosts(Vec<crate::network::HostEntry>),
    /// Anything else; ignored.
    Unknown,
}

/// A serialized snapshot of the container for outside observers.
pub struct ContainerManifest {
    pub name: String,
    pub root: String,
    pub jid: i32,
    pub linux: bool,
    pub persist: bool,
    pub started: Option<u64>,
    pub destroyed: Option<u64>,
    pub main_started: bool,
    pub main_exited: bool,
    /// The named processes and their current status.
    pub processes: Vec<(ProcessId, ProcessStat)>,
}

/// Index of the first control stream entry with this descriptor, if any.
pub open spec fn spec_stream_index(
    streams: Seq<(i32, crate::codec::StreamDecoder)>,
    fd: i32,
) -> Option<int>
    decreases streams.len(),
{
    if streams.len() == 0 {
        None
    } else if streams[0].0 == fd {
        Some(0int)
    } else {
        match spec_stream_index(streams.drop_first(), fd) {
            Some(i) => Some(i + 1),
            None => None,
        }
    }
}

/// The stream index is the first entry with the descriptor, when one
/// exists.
proof fn lemma_stream_index(streams: Seq<(i32, crate::codec::StreamDecoder)>, fd: i32)
    ensures
        spec_stream_index(streams, fd) is Some <==> exists|i: int|
            0 <= i < streams.len() && streams[i].0 == fd,
        match spec_stream_index(streams, fd) {
            Some(t) => 0 <= t < streams.len() && streams[t].0 == fd && forall|j: int|
                0 <= j < t ==> streams[j].0 != fd,
            None => true,
        },
    decreases streams.len(),
{
    if streams.len() > 0 && streams[0].0 != fd {
        lemma_stream_index(streams.drop_first(), fd);
        if spec_stream_index(streams.drop_first(), fd) is Some {
            let t = spec_stream_index(streams.drop_first(), fd)->0;
            assert forall|j: int| 0 <= j < t + 1 implies streams[j].0 != fd by {
                if j >= 1 {
                    assert(streams.drop_first()[j - 1].0 != fd);
                }
            }
        } else {
            if exists|i: int| 0 <= i < streams.len() && streams[i].0 == fd {
                let i = choose|i: int| 0 <= i < streams.len() && streams[i].0 == fd;
                assert(streams.drop_first()[i - 1].0 == fd);
            }
        }
    }
}

/// Attribution law: in a well-formed supervisor, every live pid in a
/// registry tree is attributed by the ancestor climb to that tree's head,
/// and the head is the direct-child pid of some named process.
pub proof fn lemma_attribution(s: &ProcessRunner, t: int, j: int)
    requires
        s.wf(),
        0 <= t < s.rpmap@.len(),
        0 <= j < s.rpmap@[t].1@.len(),
    ensures
        spec_ancestor(s.pmap@, s.rpmap@[t].1@[j]) == s.rpmap@[t].0,
        exists|k: int|
            0 <= k < s.named_process@.len() && (#[trigger] s.named_process@[k]).pid
                == s.rpmap@[t].0,
{
    let p = s.rpmap@[t].1@[j];
    let a = s.rpmap@[t].0;
    if p == a {
        assert(spec_lookup(s.pmap@, a) is None);
    } else {
        assert(spec_lookup(s.pmap@, p) == Some(a));
    }
    lemma_first_named(s.named_process@, a);
    assert(spec_first_named(s.named_process@, a) is Some);
}

/// No member of the list is this pid.
pub open spec fn spec_no_pid(l: Seq<u32>, pid: u32) -> bool {
    forall|j: int| 0 <= j < l.len() ==> l[j] != pid
}

/// The registry holds no trace of this pid: no parent-map entry, no tree
/// headed by it, no tree membership.
pub open spec fn spec_pid_untracked(s: &ProcessRunner, pid: u32) -> bool {
    &&& spec_lookup(s.pmap@, pid) is None
    &&& spec_tree_index(s.rpmap@, pid) is None
    &&& forall|t: int| 0 <= t < s.rpmap@.len() ==> spec_no_pid(#[trigger] s.rpmap@[t].1@, pid)
}

/// The supervisor of one running container.
pub struct ProcessRunner {
    /// Kernel event queue descriptor; held as an opaque handle for the
    /// driver, which performs all operations on it.
    pub kq: i32,
    /// One record per named process, in registration order.
    pub named_process: Vec<ProcessRunnerStat>,
    /// Tracked descendant pid -> logical ancestor pid, kept flattened.
    pub pmap: Vec<(u32, u32)>,
    /// Logical ancestor pid -> ordered list of live pids in its tree,
    /// including the ancestor itself while its direct child lives.
    pub rpmap: Vec<(u32, Vec<u32>)>,
    /// Control streams known to the supervisor: the socket descriptor and
    /// the decoder accumulating its bytes.
    pub control_streams: Vec<(i32, crate::codec::StreamDecoder)>,
    /// Epoch seconds when the container started; set at most once.
    pub started: Option<u64>,
    /// Run the start transition automatically when the loop enters.
    pub auto_start: bool,
    pub container: RunningContainer,
    pub main_started: bool,
    pub main_exited: bool,
    /// Processes to be spawned by the driver at the top of the next loop
    /// iteration.
    pub spawn_queue: Vec<(ProcessId, ExecSpec)>,
    /// The id handed out by `next_spawn` whose spawn outcome has not been
    /// recorded yet.
    pub in_flight: Option<ProcessId>,
    pub inits: SerialExec,
    pub deinits: SerialExec,
    /// Set when the deinit queue drained: the final deinit's id, whose tree
    /// exit ends the supervisor.
    pub last_deinit: Option<ProcessId>,
    /// Counter minting ids for ad-hoc control-stream spawns.
    pub next_adhoc: u64,
}

impl ProcessRunner {
    /// Registry well-formedness. `pmap` has one entry per tracked
    /// descendant, every entry points directly at a logical ancestor that
    /// heads a registry tree, ancestors themselves are never tracked as
    /// descendants, every tree member is attributed to its tree's head, and
    /// every tree head is a named process.
    pub open spec fn registry_wf(&self) -> bool {
        let pm = self.pmap@;
        let rm = self.rpmap@;
        let named = self.named_process@;
        &&& forall|i: int, j: int| 0 <= i < j < pm.len() ==> pm[i].0 != pm[j].0
        &&& forall|i: int| 0 <= i < pm.len() ==> spec_lookup(pm, #[trigger] pm[i].1) is None
        &&& forall|i: int| 0 <= i < pm.len() ==> spec_tree_index(rm, #[trigger] pm[i].1) is Some
        &&& forall|i: int| 0 <= i < rm.len() ==> spec_lookup(pm, #[trigger] rm[i].0) is None
        &&& forall|i: int, j: int|
            0 <= i < rm.len() && 0 <= j < rm[i].1@.len() ==> (#[trigger] rm[i].1@[j] == rm[i].0
                || spec_lookup(pm, rm[i].1@[j]) == Some(rm[i].0))
        &&& forall|i: int|
            0 <= i < rm.len() ==> spec_first_named(named, #[trigger] rm[i].0) is Some
    }

    /// Overall well-formedness: the registry invariants plus the serial
    /// queues' own invariants and their fixed kinds.
    pub open spec fn wf(&self) -> bool {
        &&& self.registry_wf()
        &&& self.inits.wf()
        &&& self.deinits.wf()
        &&& self.inits.base_id == QueueKind::Init
        &&& self.deinits.base_id == QueueKind::Deinit
    }

    /// Climb to the logical ancestor of `pid`. The registry keeps `pmap`
    /// flattened (every descendant maps directly to its ancestor), so the
    /// climb is a single lookup.
    pub fn pid_ancestor(&self, pid: u32) -> (r: u32)
        requires
            self.wf(),
        ensures
            r == spec_ancestor(self.pmap@, pid),
    {
        match registry::map_get(&self.pmap, pid) {
            Some(parent) => parent,
            None => pid,
        }
    }

    /// Build the supervisor for a container. The init queue starts activated
    /// unless the container suppresses the init phase; the deinit queue is
    /// activated only when main's tree exits or the container is killed.
    pub fn new(kq: i32, container: RunningContainer, auto_start: bool) -> (r: ProcessRunner)
        ensures
            r.wf(),
            r.kq == kq,
            r.auto_start == auto_start,
            r.named_process@.len() == 0,
            r.pmap@.len() == 0,
            r.rpmap@.len() == 0,
            r.control_streams@.len() == 0,
            r.started is None,
            !r.main_started,
            !r.main_exited,
            r.spawn_queue@.len() == 0,
            r.in_flight is None,
            r.last_deinit is None,
            r.next_adhoc == 0,
            r.inits.idx == 0 && r.inits.last_spawn is None && r.inits.activated
                == !container.init_norun,
            crate::process::spec_execs_eq(r.inits.execs@, container.init_proto@),
            r.deinits.idx == 0 && r.deinits.last_spawn is None && !r.deinits.activated,
            crate::process::spec_execs_eq(r.deinits.execs@, container.deinit_proto@),
            r.container == container,
    {
        let init_execs = crate::process::clone_specs(&container.init_proto);
        let deinit_execs = crate::process::clone_specs(&container.deinit_proto);
        let activated = !container.init_norun;
        ProcessRunner {
            kq,
            named_process: Vec::new(),
            pmap: Vec::new(),
            rpmap: Vec::new(),
            control_streams: Vec::new(),
            started: None,
            auto_start,
            main_started: false,
            main_exited: false,
            spawn_queue: Vec::new(),
            in_flight: None,
            inits: SerialExec::new(QueueKind::Init, init_execs, activated),
            deinits: SerialExec::new(QueueKind::Deinit, deinit_execs, false),
            last_deinit: None,
            next_adhoc: 0,
            container,
        }
    }

    /// The start transition: runs at most once. Sets the start timestamp;
    /// with an empty init queue it goes straight to main (unless main is
    /// suppressed), otherwise it dispatches the first init and activates the
    /// init queue.
    pub fn start(&mut self, now: u64)
        requires
            old(self).wf(),
        ensures
            final(self).wf(),
            old(self).started is Some ==> *final(self) == *old(self),
            old(self).started is None ==> {
                &&& final(self).started == Some(now)
                &&& final(self).inits.base_id == old(self).inits.base_id
                &&& final(self).deinits == old(self).deinits
                &&& (old(self).inits.execs@.len() == 0 && !old(self).container.main_norun
                    ==> final(self).inits == old(self).inits && (
                    old(self).container.main_proto is Some ==> {
                        &&& final(self).spawn_queue@.len() == old(self).spawn_queue@.len() + 1
                        &&& final(self).spawn_queue@.last().0 == ProcessId::Main
                        &&& crate::process::spec_exec_eq(
                            final(self).spawn_queue@.last().1,
                            old(self).container.main_proto->0,
                        )
                    }))
                &&& (old(self).inits.execs@.len() == 0 && old(self).container.main_norun
                    ==> final(self).spawn_queue == old(self).spawn_queue && final(self).inits
                    == old(self).inits)
                &&& (old(self).inits.execs@.len() > 0 ==> {
                    &&& final(self).inits.activated
                    &&& final(self).inits.idx == old(self).inits.idx + 1
                    &&& final(self).inits.last_spawn == Some(
                        crate::serial::spec_mint(old(self).inits.base_id, old(self).inits.idx),
                    )
                    &&& final(self).inits.execs@ == old(self).inits.execs@.drop_first()
                    &&& final(self).spawn_queue@ == old(self).spawn_queue@.push(
                        (
                            crate::serial::spec_mint(old(self).inits.base_id, old(self).inits.idx),
                            old(self).inits.execs@[0],
                        ),
                    )
                })
                &&& final(self).container == old(self).container
                &&& final(self).named_process == old(self).named_process
                &&& final(self).pmap == old(self).pmap
                &&& final(self).rpmap == old(self).rpmap
                &&& final(self).last_deinit == old(self).last_deinit
                &&& final(self).in_flight == old(self).in_flight
                &&& final(self).main_started == old(self).main_started
                &&& final(self).main_exited == old(self).main_exited
            },
    {
        if self.started.is_some() {
            // Attempting to start a started container is a caller error; it
            // is ignored.
            return;
        }
        self.started = Some(now);
        let inits_empty = self.inits.is_empty();
        if inits_empty && !self.container.main_norun {
            self.run_main();
        } else {
            match self.inits.pop_front() {
                Some((id, exec_spec)) => {
                    self.inits.activate();
                    self.spawn_queue.push((id, exec_spec));
                },
                None => {},
            }
        }
    }

    /// The user-posted kill event: terminate at once when there is no deinit
    /// work, otherwise activate the deinit queue and dispatch its first
    /// element.
    pub fn handle_user_kill(&mut self) -> (brk: bool)
        requires
            old(self).wf(),
        ensures
            final(self).wf(),
            brk == (old(self).container.deinit_norun || old(self).deinits.execs@.len() == 0),
            brk ==> *final(self) == *old(self),
            !brk ==> {
                &&& final(self).deinits.activated
                &&& (old(self).deinits.last_spawn is None ==> {
                    &&& final(self).deinits.idx == old(self).deinits.idx + 1
                    &&& final(self).deinits.last_spawn == Some(
                        crate::serial::spec_mint(
                            old(self).deinits.base_id,
                            old(self).deinits.idx,
                        ),
                    )
                    &&& final(self).spawn_queue@ == old(self).spawn_queue@.push(
                        (
                            crate::serial::spec_mint(
                                old(self).deinits.base_id,
                                old(self).deinits.idx,
                            ),
                            old(self).deinits.execs@[0],
                        ),
                    )
                })
                &&& (old(self).deinits.last_spawn is Some ==> final(self).deinits
                    == (SerialExec { activated: true, ..old(self).deinits })
                    && final(self).spawn_queue == old(self).spawn_queue)
                &&& *final(self) == (ProcessRunner {
                    deinits: final(self).deinits,
                    spawn_queue: final(self).spawn_queue,
                    ..*old(self)
                })
            },
    {
        if self.container.deinit_norun || self.deinits.is_empty() {
            return true;
        }
        self.deinits.activate();
        self.deinits.try_drain_proc_queue(None, &mut self.spawn_queue);
        false
    }

    /// The deinit grace timer fired: the final deinit's tree is taking too
    /// long and the supervisor terminates.
    pub fn handle_timer(&self) -> (brk: bool)
        ensures
            brk,
    {
        true
    }

    /// Cleanup after the event loop ends: stamp the destruction time (at
    /// most once), kill the jail and wake whoever waits for destruction.
    pub fn cleanup(&mut self, now: u64, acts: &mut Vec<Action>)
        requires
            old(self).wf(),
        ensures
            final(self).wf(),
            old(self).container.destroyed is None ==> final(self).container.destroyed == Some(now),
            old(self).container.destroyed is Some ==> final(self).container.destroyed == old(
                self,
            ).container.destroyed,
            *final(self) == (ProcessRunner { container: final(self).container, ..*old(self) }),
            final(self).container == (RunningContainer {
                destroyed: final(self).container.destroyed,
                ..old(self).container
            }),
            match old(self).container.destroyed_notify {
                Some(fd) => final(acts)@ == old(acts)@.push(Action::KillJail(
                    old(self).container.jid,
                )).push(Action::Notify(fd)),
                None => final(acts)@ == old(acts)@.push(Action::KillJail(
                    old(self).container.jid,
                )),
            },
    {
        if self.container.destroyed.is_none() {
            self.container.destroyed = Some(now);
        }
        acts.push(Action::KillJail(self.container.jid));
        match self.container.destroyed_notify {
            Some(fd) => {
                acts.push(Action::Notify(fd));
            },
            None => {},
        }
    }

    /// Track a new control stream and have the driver watch it for
    /// readability.
    pub fn add_control_stream(&mut self, fd: i32, acts: &mut Vec<Action>)
        ensures
            final(self).control_streams@.len() == old(self).control_streams@.len() + 1,
            final(self).control_streams@.last().0 == fd,
            final(self).control_streams@.last().1.buf@.len() == 0,
            final(self).control_streams@.take(old(self).control_streams@.len() as int) == old(
                self,
            ).control_streams@,
            final(acts)@ == old(acts)@.push(Action::WatchFd(fd)),
            *final(self) == (ProcessRunner {
                control_streams: final(self).control_streams,
                ..*old(self)
            }),
    {
        self.control_streams.push((fd, crate::codec::StreamDecoder::new()));
        acts.push(Action::WatchFd(fd));
        proof {
            assert(self.control_streams@.take(old(self).control_streams@.len() as int) =~= old(
                self,
            ).control_streams@);
        }
    }

    /// Drop a control stream (end of file or protocol error).
    pub fn stream_closed(&mut self, fd: i32)
        ensures
            *final(self) == (ProcessRunner {
                control_streams: final(self).control_streams,
                ..*old(self)
            }),
            match spec_stream_index(old(self).control_streams@, fd) {
                None => *final(self) == *old(self),
                Some(t) => final(self).control_streams@ == old(self).control_streams@.remove(t),
            },
    {
        proof {
            lemma_stream_index(self.control_streams@, fd);
        }
        let n = self.control_streams.len();
        let mut i: usize = 0;
        while i < n
            invariant
                n == self.control_streams@.len(),
                i <= n,
                *self == *old(self),
                forall|j: int| 0 <= j < i ==> self.control_streams@[j].0 != fd,
            decreases n - i,
        {
            if self.control_streams[i].0 == fd {
                proof {
                    lemma_stream_index(self.control_streams@, fd);
                }
                self.control_streams.remove(i);
                return ;
            }
            i += 1;
        }
        proof {
            lemma_stream_index(self.control_streams@, fd);
        }
    }

    /// A serialized snapshot of the container and its named processes.
    pub fn manifest(&self) -> (m: ContainerManifest)
        ensures
            m.name@ == self.container.name@,
            m.root@ == self.container.root@,
            m.jid == self.container.jid,
            m.linux == self.container.linux,
            m.persist == self.container.persist,
            m.started == self.started,
            m.destroyed == self.container.destroyed,
            m.main_started == self.main_started,
            m.main_exited == self.main_exited,
            m.processes@.len() == self.named_process@.len(),
            forall|i: int|
                0 <= i < self.named_process@.len() ==> (#[trigger] m.processes@[i]).0
                    == self.named_process@[i].id && crate::process::spec_stat_eq(
                    m.processes@[i].1,
                    self.named_process@[i].process_stat,
                ),
    {
        let mut processes: Vec<(ProcessId, ProcessStat)> = Vec::new();
        let n = self.named_process.len();
        let mut i: usize = 0;
        while i < n
            invariant
                n == self.named_process@.len(),
                i <= n,
                processes@.len() == i,
                forall|j: int|
                    0 <= j < i ==> (#[trigger] processes@[j]).0 == self.named_process@[j].id
                        && crate::process::spec_stat_eq(
                        processes@[j].1,
                        self.named_process@[j].process_stat,
                    ),
            decreases n - i,
        {
            let id = self.named_process[i].id;
            let stat = self.named_process[i].process_stat.snapshot();
            processes.push((id, stat));
            i += 1;
        }
        ContainerManifest {
            name: self.container.name.clone(),
            root: self.container.root.clone(),
            jid: self.container.jid,
            linux: self.container.linux,
            persist: self.container.persist,
            started: self.started,
            destroyed: self.container.destroyed,
            main_started: self.main_started,
            main_exited: self.main_exited,
            processes,
        }
    }

    /// Feed bytes read from a control stream into its decoder and try to
    /// take one complete frame. A stream that announces an oversized frame
    /// is dropped on the spot.
    pub fn stream_data(&mut self, fd: i32, bytes: &Vec<u8>) -> (r: Result<
        Option<Vec<u8>>,
        crate::codec::CodecError,
    >)
        requires
            old(self).wf(),
        ensures
            final(self).wf(),
            *final(self) == (ProcessRunner {
                control_streams: final(self).control_streams,
                ..*old(self)
            }),
            match spec_stream_index(old(self).control_streams@, fd) {
                None => r == Result::<Option<Vec<u8>>, crate::codec::CodecError>::Ok(
                    Option::<Vec<u8>>::None,
                ) && final(self).control_streams == old(self).control_streams,
                Some(t) => {
                    let fed = old(self).control_streams@[t].1.buf@ + bytes@;
                    if crate::codec::spec_frame_err(fed) {
                        r is Err && final(self).control_streams@ == old(
                            self,
                        ).control_streams@.remove(t)
                    } else if crate::codec::spec_packet_ready(fed) {
                        &&& r matches Ok(p)
                        &&& p matches Some(payload)
                        &&& payload@ == crate::codec::spec_packet_payload(fed)
                        &&& final(self).control_streams@.len() == old(self).control_streams@.len()
                        &&& final(self).control_streams@[t].0 == fd
                        &&& final(self).control_streams@[t].1.buf@
                            == crate::codec::spec_packet_rest(fed)
                        &&& (forall|u: int|
                            0 <= u < old(self).control_streams@.len() && u != t
                                ==> #[trigger] final(self).control_streams@[u] == old(
                                self,
                            ).control_streams@[u])
                    } else {
                        &&& r == Result::<Option<Vec<u8>>, crate::codec::CodecError>::Ok(
                            Option::<Vec<u8>>::None,
                        )
                        &&& final(self).control_streams@.len() == old(self).control_streams@.len()
                        &&& final(self).control_streams@[t].0 == fd
                        &&& final(self).control_streams@[t].1.buf@ == fed
                        &&& (forall|u: int|
                            0 <= u < old(self).control_streams@.len() && u != t
                                ==> #[trigger] final(self).control_streams@[u] == old(
                                self,
                            ).control_streams@[u])
                    }
                },
            },
    {
        proof {
            lemma_stream_index(self.control_streams@, fd);
        }
        let n = self.control_streams.len();
        let mut i: usize = 0;
        while i < n
            invariant
                old(self).wf(),
                n == self.control_streams@.len(),
                i <= n,
                *self == *old(self),
                forall|j: int| 0 <= j < i ==> self.control_streams@[j].0 != fd,
            decreases n - i,
        {
            if self.control_streams[i].0 == fd {
                proof {
                    lemma_stream_index(self.control_streams@, fd);
                }
                let entry = self.control_streams.remove(i);
                let k = entry.0;
                let mut dec = entry.1;
                dec.feed(bytes);
                match dec.try_packet() {
                    Err(e) => {
                        // protocol error: the stream stays dropped
                        return Err(e);
                    },
                    Ok(opt) => {
                        self.control_streams.insert(i, (k, dec));
                        proof {
                            assert(self.control_streams@ =~= old(self).control_streams@.remove(
                                i as int,
                            ).insert(i as int, (k, dec)));
                        }
                        return Ok(opt);
                    },
                }
            }
            i += 1;
        }
        proof {
            lemma_stream_index(self.control_streams@, fd);
        }
        Ok(None)
    }

    /// Dispatch a decoded control request: ad-hoc spawns and hosts-file
    /// writes become actions for the driver, `run_main` and `start` drive
    /// the lifecycle directly. Unknown methods are ignored without a
    /// response. (An exec request arriving once the ad-hoc counter is
    /// exhausted is ignored, so ids stay unique.)
    pub fn handle_request(&mut self, fd: i32, req: ControlRequest, now: u64, acts: &mut Vec<
        Action,
    >)
        requires
            old(self).wf(),
        ensures
            final(self).wf(),
            match req {
                ControlRequest::Exec(exec_spec) => {
                    &&& (old(self).next_adhoc < u64::MAX ==> {
                        &&& final(self).next_adhoc == old(self).next_adhoc + 1
                        &&& final(acts)@ == old(acts)@.push(
                            Action::SpawnAdhoc {
                                fd,
                                id: ProcessId::Adhoc(old(self).next_adhoc),
                                exec_spec,
                                notify: exec_spec.notify,
                            },
                        )
                        &&& *final(self) == (ProcessRunner {
                            next_adhoc: final(self).next_adhoc,
                            ..*old(self)
                        })
                    })
                    &&& (old(self).next_adhoc == u64::MAX ==> *final(self) == *old(self)
                        && *final(acts) == *old(acts))
                },
                ControlRequest::RunMain => {
                    &&& (old(self).container.main_proto is Some ==> {
                        &&& final(self).spawn_queue@.len() == old(self).spawn_queue@.len() + 1
                        &&& final(self).spawn_queue@.last().0 == ProcessId::Main
                        &&& crate::process::spec_exec_eq(
                            final(self).spawn_queue@.last().1,
                            old(self).container.main_proto->0,
                        )
                        &&& *final(self) == (ProcessRunner {
                            spawn_queue: final(self).spawn_queue,
                            ..*old(self)
                        })
                    })
                    &&& (old(self).container.main_proto is None ==> *final(self) == *old(self))
                    &&& spec_pushed_ok_response(old(acts)@, final(acts)@, fd)
                },
                ControlRequest::Start => {
                    &&& (old(self).started is Some ==> *final(self) == *old(self))
                    &&& (old(self).started is None ==> final(self).started == Some(now))
                    &&& spec_pushed_ok_response(old(acts)@, final(acts)@, fd)
                },
                ControlRequest::WriteHosts(entries) => {
                    &&& *final(self) == *old(self)
                    &&& final(acts)@.len() == old(acts)@.len() + 2
                    &&& final(acts)@.take(old(acts)@.len() as int) == old(acts)@
                    &&& (final(acts)@[old(acts)@.len() as int] matches Action::WriteHostsFile {
                        content,
                        reply_fd,
                    } && reply_fd == fd && content@ == crate::hosts::spec_hosts_prefix()
                        + crate::hosts::spec_host_lines(entries@))
                    &&& (final(acts)@.last() matches Action::Respond { fd: f2, status, body }
                        && f2 == fd && status == 0 && body@ == "null"@)
                },
                ControlRequest::Unknown => *final(self) == *old(self) && *final(acts) == *old(
                    acts,
                ),
            },
    {
        match req {
            ControlRequest::Exec(exec_spec) => {
                if self.next_adhoc < u64::MAX {
                    let id = ProcessId::Adhoc(self.next_adhoc);
                    self.next_adhoc = self.next_adhoc + 1;
                    let notify = exec_spec.notify;
                    acts.push(Action::SpawnAdhoc { fd, id, exec_spec, notify });
                }
            },
            ControlRequest::RunMain => {
                if self.container.main_proto.is_some() {
                    self.run_main();
                }
                acts.push(Action::Respond { fd, status: 0, body: null_body() });
                proof {
                    assert(acts@.take(old(acts)@.len() as int) =~= old(acts)@);
                }
            },
            ControlRequest::Start => {
                self.start(now);
                acts.push(Action::Respond { fd, status: 0, body: null_body() });
                proof {
                    assert(acts@.take(old(acts)@.len() as int) =~= old(acts)@);
                }
            },
            ControlRequest::WriteHosts(entries) => {
                let content = crate::hosts::hosts_content(&entries);
                acts.push(Action::WriteHostsFile { content, reply_fd: fd });
                acts.push(Action::Respond { fd, status: 0, body: null_body() });
                proof {
                    assert(acts@.take(old(acts)@.len() as int) =~= old(acts)@);
                }
            },
            ControlRequest::Unknown => {},
        }
    }

    /// Remove every trace of `pid` from the registry: its parent-map entry
    /// and every occurrence in any tree's member list. Tree entries and
    /// their order are kept, only their members change.
    fn untrack_pid(&mut self, pid: u32)
        requires
            old(self).wf(),
        ensures
            final(self).wf(),
            spec_lookup(final(self).pmap@, pid) is None,
            forall|k: u32|
                k != pid ==> spec_lookup(final(self).pmap@, k) == spec_lookup(
                    old(self).pmap@,
                    k,
                ),
            final(self).rpmap@.len() == old(self).rpmap@.len(),
            forall|t: int|
                0 <= t < old(self).rpmap@.len() ==> #[trigger] final(self).rpmap@[t].0 == old(
                    self,
                ).rpmap@[t].0,
            forall|t: int, j: int|
                0 <= t < final(self).rpmap@.len() && 0 <= j < final(self).rpmap@[t].1@.len()
                    ==> #[trigger] final(self).rpmap@[t].1@[j] != pid && old(
                    self,
                ).rpmap@[t].1@.contains(final(self).rpmap@[t].1@[j]),
            forall|t: int, j: int|
                0 <= t < old(self).rpmap@.len() && 0 <= j < old(self).rpmap@[t].1@.len() && old(
                    self,
                ).rpmap@[t].1@[j] != pid ==> final(self).rpmap@[t].1@.contains(
                    #[trigger] old(self).rpmap@[t].1@[j],
                ),
            forall|t: int|
                0 <= t < old(self).rpmap@.len() && spec_no_pid(old(self).rpmap@[t].1@, pid)
                    ==> #[trigger] final(self).rpmap@[t].1@ == old(self).rpmap@[t].1@,
            spec_lookup(old(self).pmap@, pid) is None ==> final(self).pmap@ == old(self).pmap@,
            *final(self) == (ProcessRunner {
                pmap: final(self).pmap,
                rpmap: final(self).rpmap,
                ..*old(self)
            }),
    {
        let ghost pm0 = self.pmap@;
        registry::map_remove(&mut self.pmap, pid);
        proof {
            registry::lemma_removed_key(pm0, self.pmap@, pid);
        }
        let ghost pm1 = self.pmap@;
        let ghost rm0 = self.rpmap@;
        let n = self.rpmap.len();
        let mut i: usize = 0;
        while i < n
            invariant
                n == rm0.len(),
                self.rpmap@.len() == n,
                i <= n,
                self.pmap@ == pm1,
                forall|t: int| i <= t < n ==> self.rpmap@[t] == rm0[t],
                forall|t: int| 0 <= t < i ==> #[trigger] self.rpmap@[t].0 == rm0[t].0,
                forall|t: int, j: int|
                    0 <= t < i && 0 <= j < self.rpmap@[t].1@.len()
                        ==> #[trigger] self.rpmap@[t].1@[j] != pid && rm0[t].1@.contains(
                        self.rpmap@[t].1@[j],
                    ),
                forall|t: int, j: int|
                    0 <= t < i && 0 <= j < rm0[t].1@.len() && rm0[t].1@[j] != pid
                        ==> self.rpmap@[t].1@.contains(#[trigger] rm0[t].1@[j]),
                forall|t: int|
                    0 <= t < i && spec_no_pid(rm0[t].1@, pid)
                        ==> #[trigger] self.rpmap@[t].1@ == rm0[t].1@,
                *self == (ProcessRunner {
                    pmap: self.pmap,
                    rpmap: self.rpmap,
                    ..*old(self)
                }),
            decreases n - i,
        {
            let entry = self.rpmap.remove(i);
            let key = entry.0;
            let l = entry.1;
            let mut kept: Vec<u32> = Vec::new();
            let m = l.len();
            let mut j: usize = 0;
            while j < m
                invariant
                    m == l@.len(),
                    j <= m,
                    forall|t: int|
                        0 <= t < kept@.len() ==> #[trigger] kept@[t] != pid && l@.contains(
                            kept@[t],
                        ),
                    forall|t: int| 0 <= t < j && l@[t] != pid ==> kept@.contains(#[trigger] l@[t]),
                    (forall|t: int| 0 <= t < j ==> l@[t] != pid) ==> kept@ == l@.take(j as int),
                decreases m - j,
            {
                if l[j] != pid {
                    let ghost kept0 = kept@;
                    kept.push(l[j]);
                    proof {
                        assert(l@.contains(l@[j as int]));
                        assert(forall|t: int|
                            0 <= t < kept0.len() ==> kept@[t] == kept0[t]);
                        assert(kept@[kept0.len() as int] == l@[j as int]);
                        assert(forall|x: u32| kept0.contains(x) ==> kept@.contains(x)) by {
                            assert forall|x: u32| kept0.contains(x) implies kept@.contains(x) by {
                                let w = choose|w: int| 0 <= w < kept0.len() && kept0[w] == x;
                                assert(kept@[w] == x);
                            }
                        }
                        if forall|t: int| 0 <= t < j + 1 ==> l@[t] != pid {
                            if kept0 == l@.take(j as int) {
                                assert(kept@ =~= l@.take(j as int + 1));
                            }
                        }
                    }
                } else {
                    proof {
                        assert(forall|t: int|
                            0 <= t < j + 1 && l@[t] != pid ==> kept@.contains(#[trigger] l@[t]));
                    }
                }
                j += 1;
            }
            proof {
                if spec_no_pid(l@, pid) {
                    assert(kept@ == l@.take(m as int));
                    assert(l@.take(m as int) =~= l@);
                    assert(kept@ == l@);
                }
            }
            self.rpmap.insert(i, (key, kept));
            i += 1;
        }
        proof {
            lemma_registry_wf_after_untrack(*old(self), *self, pid);
        }
    }

    /// Track a named process: remember its record, seed its registry tree
    /// with its own pid, and have the driver register a kernel exit-and-fork
    /// watch on it.
    #[verifier::rlimit(60)]
    pub fn trace_process(
        &mut self,
        id: ProcessId,
        pid: u32,
        stat: ProcessStat,
        notify: Option<i32>,
        acts: &mut Vec<Action>,
    )
        requires
            old(self).wf(),
        ensures
            final(self).wf(),
            final(self).named_process@.len() == old(self).named_process@.len() + 1,
            final(self).named_process@.take(old(self).named_process@.len() as int) == old(
                self,
            ).named_process@,
            final(self).named_process@.last().id == id,
            final(self).named_process@.last().pid == pid,
            final(self).named_process@.last().process_stat == stat,
            final(self).named_process@.last().notify == notify,
            ({
                let t = spec_tree_index(final(self).rpmap@, pid);
                t is Some && final(self).rpmap@[t->0].1@ == seq![pid]
            }),
            spec_lookup(final(self).pmap@, pid) is None,
            forall|k: u32|
                k != pid ==> spec_lookup(final(self).pmap@, k) == spec_lookup(old(self).pmap@, k),
            final(acts)@ == old(acts)@.push(Action::WatchPid(pid)),
            // the rest of the registry is untouched: tree heads keep their
            // places, at most one tree is added, and for a pid the registry
            // did not track the rest is exactly as it was
            old(self).rpmap@.len() <= final(self).rpmap@.len() <= old(self).rpmap@.len() + 1,
            forall|t: int|
                0 <= t < old(self).rpmap@.len() ==> #[trigger] final(self).rpmap@[t].0 == old(
                    self,
                ).rpmap@[t].0,
            spec_pid_untracked(old(self), pid) ==> {
                &&& final(self).pmap@ == old(self).pmap@
                &&& final(self).rpmap@.len() == old(self).rpmap@.len() + 1
                &&& (forall|t: int|
                    0 <= t < old(self).rpmap@.len() ==> (#[trigger] final(self).rpmap@[t]).0
                        == old(self).rpmap@[t].0 && final(self).rpmap@[t].1@ == old(
                        self,
                    ).rpmap@[t].1@)
                &&& final(self).rpmap@.last().0 == pid
            },
            *final(self) == (ProcessRunner {
                named_process: final(self).named_process,
                pmap: final(self).pmap,
                rpmap: final(self).rpmap,
                ..*old(self)
            }),
    {
        self.untrack_pid(pid);
        let ghost mid = *self;
        let mut single: Vec<u32> = Vec::new();
        single.push(pid);
        match registry::tree_position(&self.rpmap, pid) {
            Some(t) => {
                self.rpmap.remove(t);
                self.rpmap.insert(t, (pid, single));
                proof {
                    assert(self.rpmap@ =~= mid.rpmap@.remove(t as int).insert(
                        t as int,
                        (pid, self.rpmap@[t as int].1),
                    ));
                    assert(forall|u: int|
                        0 <= u < self.rpmap@.len() ==> #[trigger] self.rpmap@[u].0
                            == mid.rpmap@[u].0);
                    assert(self.rpmap@[t as int].0 == pid);
                    if spec_pid_untracked(old(self), pid) {
                        assert(old(self).rpmap@[t as int].0 == pid);
                        registry::lemma_tree_index(old(self).rpmap@, pid);
                        assert(false);
                    }
                }
            },
            None => {
                self.rpmap.push((pid, single));
                proof {
                    assert(self.rpmap@[self.rpmap@.len() - 1].0 == pid);
                    if spec_pid_untracked(old(self), pid) {
                        assert(mid.pmap@ == old(self).pmap@);
                        assert forall|u: int|
                            0 <= u < old(self).rpmap@.len() implies (
                        #[trigger] self.rpmap@[u]).0 == old(self).rpmap@[u].0
                            && self.rpmap@[u].1@ == old(self).rpmap@[u].1@ by {
                            assert(spec_no_pid(old(self).rpmap@[u].1@, pid));
                            assert(mid.rpmap@[u].1@ == old(self).rpmap@[u].1@);
                            assert(self.rpmap@[u] == mid.rpmap@[u]);
                        }
                        assert(self.rpmap@.last().0 == pid);
                    }
                }
            },
        }
        let ghost rm2 = self.rpmap@;
        self.named_process.push(ProcessRunnerStat { id, pid, process_stat: stat, notify });
        acts.push(Action::WatchPid(pid));
        proof {
            let named2 = self.named_process@;
            registry::lemma_tree_index(rm2, pid);
            assert(spec_tree_index(rm2, pid) is Some);
            assert(rm2[spec_tree_index(rm2, pid)->0].1@ =~= seq![pid]);
            assert forall|i: int| 0 <= i < self.pmap@.len() implies spec_tree_index(
                rm2,
                #[trigger] self.pmap@[i].1,
            ) is Some by {
                assert(spec_tree_index(mid.rpmap@, self.pmap@[i].1) is Some);
                registry::lemma_tree_index(mid.rpmap@, self.pmap@[i].1);
                let t0 = choose|t0: int|
                    0 <= t0 < mid.rpmap@.len() && mid.rpmap@[t0].0 == self.pmap@[i].1;
                assert(rm2[t0].0 == self.pmap@[i].1 || rm2[t0].0 == pid);
                if rm2[t0].0 != self.pmap@[i].1 {
                    assert(mid.rpmap@[t0].0 == pid);
                    let ti = spec_tree_index(rm2, pid)->0;
                    assert(rm2[ti].0 == pid);
                }
                registry::lemma_tree_index(rm2, self.pmap@[i].1);
            }
            assert forall|t: int| 0 <= t < rm2.len() implies spec_lookup(
                self.pmap@,
                #[trigger] rm2[t].0,
            ) is None by {
                if t < mid.rpmap@.len() {
                    assert(rm2[t].0 == mid.rpmap@[t].0 || rm2[t].0 == pid);
                }
            }
            assert forall|t: int, j: int|
                0 <= t < rm2.len() && 0 <= j < rm2[t].1@.len() implies (#[trigger] rm2[t].1@[j]
                == rm2[t].0 || spec_lookup(self.pmap@, rm2[t].1@[j]) == Some(rm2[t].0)) by {
                if t < mid.rpmap@.len() && rm2[t] == mid.rpmap@[t] {
                    assert(mid.rpmap@[t].1@[j] == mid.rpmap@[t].0 || spec_lookup(
                        mid.pmap@,
                        mid.rpmap@[t].1@[j],
                    ) == Some(mid.rpmap@[t].0));
                } else {
                    assert(rm2[t].1@ =~= seq![pid]);
                }
            }
            assert forall|t: int| 0 <= t < rm2.len() implies spec_first_named(
                named2,
                #[trigger] rm2[t].0,
            ) is Some by {
                lemma_first_named(named2, rm2[t].0);
                if t < mid.rpmap@.len() && rm2[t].0 == mid.rpmap@[t].0 {
                    assert(spec_first_named(mid.named_process@, mid.rpmap@[t].0) is Some);
                    lemma_first_named(mid.named_process@, mid.rpmap@[t].0);
                    let w = choose|w: int|
                        0 <= w < mid.named_process@.len() && mid.named_process@[w].pid
                            == mid.rpmap@[t].0;
                    assert(named2[w].pid == rm2[t].0);
                } else {
                    assert(named2[named2.len() - 1].pid == pid);
                }
            }
            assert(self.named_process@.take(old(self).named_process@.len() as int) =~= old(
                self,
            ).named_process@);
        }
    }

    /// Record a successful spawn: publish the spawn result into a fresh
    /// status record and track the new named process. Accepted only for the
    /// dispatch currently in flight or for an ad-hoc control-stream id; an
    /// unexpected id is a driver desync and is ignored.
    pub fn record_spawn_success(
        &mut self,
        id: ProcessId,
        exec_spec: ExecSpec,
        info: SpawnInfo,
        notify: Option<i32>,
        acts: &mut Vec<Action>,
    )
        requires
            old(self).wf(),
        ensures
            final(self).wf(),
            !(old(self).in_flight == Some(id) || id is Adhoc) ==> *final(self) == *old(self)
                && *final(acts) == *old(acts),
            (old(self).in_flight == Some(id) || id is Adhoc) ==> {
                &&& final(self).named_process@.len() == old(self).named_process@.len() + 1
                &&& final(self).named_process@.take(old(self).named_process@.len() as int) == old(
                    self,
                ).named_process@
                &&& final(self).named_process@.last().id == id
                &&& final(self).named_process@.last().pid == info.pid
                &&& final(self).named_process@.last().process_stat.exec_spec == exec_spec
                &&& final(self).named_process@.last().process_stat.spawn_info == Some(info)
                &&& final(self).named_process@.last().process_stat.exited is None
                &&& !final(self).named_process@.last().process_stat.tree_exited
                &&& final(self).named_process@.last().notify == notify
                &&& ({
                    let t = spec_tree_index(final(self).rpmap@, info.pid);
                    t is Some && final(self).rpmap@[t->0].1@ == seq![info.pid]
                })
                &&& final(self).in_flight == (if old(self).in_flight == Some(id) {
                    Option::<ProcessId>::None
                } else {
                    old(self).in_flight
                })
                &&& final(acts)@ == old(acts)@.push(Action::WatchPid(info.pid))
                &&& *final(self) == (ProcessRunner {
                    named_process: final(self).named_process,
                    pmap: final(self).pmap,
                    rpmap: final(self).rpmap,
                    in_flight: final(self).in_flight,
                    ..*old(self)
                })
            },
    {
        let mut expected = false;
        match self.in_flight {
            Some(p) => {
                if p == id {
                    expected = true;
                    self.in_flight = None;
                }
            },
            None => {},
        }
        if !expected {
            match id {
                ProcessId::Adhoc(_) => {
                    expected = true;
                },
                _ => {
                    return;
                },
            }
        }
        let pid = info.pid;
        let mut stat = ProcessStat::new(exec_spec);
        stat.set_started(info);
        self.trace_process(id, pid, stat, notify, acts);
    }

    /// Record a failed spawn: the process is not tracked, and the waiters on
    /// its exit notification are unblocked so nothing waits on a process
    /// that never ran.
    pub fn record_spawn_failure(&mut self, id: ProcessId, notify: Option<i32>, acts: &mut Vec<
        Action,
    >)
        requires
            old(self).wf(),
        ensures
            final(self).wf(),
            final(self).in_flight == (if old(self).in_flight == Some(id) {
                Option::<ProcessId>::None
            } else {
                old(self).in_flight
            }),
            *final(self) == (ProcessRunner { in_flight: final(self).in_flight, ..*old(self) }),
            match notify {
                Some(fd) => final(acts)@ == old(acts)@.push(Action::Notify(fd)),
                None => *final(acts) == *old(acts),
            },
    {
        match self.in_flight {
            Some(p) => {
                if p == id {
                    self.in_flight = None;
                }
            },
            None => {},
        }
        match notify {
            Some(fd) => {
                acts.push(Action::Notify(fd));
            },
            None => {},
        }
    }

    /// Hand the driver the next process to spawn, and remember that its
    /// outcome is pending. Nothing more is handed out until the driver
    /// records the outcome.
    pub fn next_spawn(&mut self) -> (r: Option<(ProcessId, ExecSpec)>)
        requires
            old(self).wf(),
        ensures
            final(self).wf(),
            old(self).in_flight is Some ==> r is None && *final(self) == *old(self),
            old(self).in_flight is None && old(self).spawn_queue@.len() == 0 ==> r is None
                && *final(self) == *old(self),
            old(self).in_flight is None && old(self).spawn_queue@.len() > 0 ==> {
                &&& r == Some(old(self).spawn_queue@[0])
                &&& final(self).spawn_queue@ == old(self).spawn_queue@.drop_first()
                &&& final(self).in_flight == Some(old(self).spawn_queue@[0].0)
                &&& *final(self) == (ProcessRunner {
                    spawn_queue: final(self).spawn_queue,
                    in_flight: final(self).in_flight,
                    ..*old(self)
                })
            },
    {
        if self.in_flight.is_some() {
            return None;
        }
        if self.spawn_queue.len() == 0 {
            return None;
        }
        let (id, exec_spec) = self.spawn_queue.remove(0);
        self.in_flight = Some(id);
        proof {
            assert(self.spawn_queue@ =~= old(self).spawn_queue@.drop_first());
        }
        Some((id, exec_spec))
    }

    /// Note that main has been spawned and wake whoever waits for it.
    pub fn mark_main_started(&mut self, acts: &mut Vec<Action>)
        ensures
            final(self).main_started,
            *final(self) == (ProcessRunner { main_started: true, ..*old(self) }),
            match old(self).container.main_started_notify {
                Some(fd) => final(acts)@ == old(acts)@.push(Action::Notify(fd)),
                None => *final(acts) == *old(acts),
            },
    {
        self.main_started = true;
        match self.container.main_started_notify {
            Some(fd) => {
                acts.push(Action::Notify(fd));
            },
            None => {},
        }
    }

    /// After removing `pid`, is the tree list `l` empty (every member was
    /// `pid`)?
    pub open spec fn spec_gone(l: Seq<u32>, pid: u32) -> bool {
        forall|j: int| 0 <= j < l.len() ==> l[j] == pid
    }

    /// Length of the deinit queue after the drain step an exit of `id`
    /// triggers (only a direct-child exit drives the queues).
    pub open spec fn spec_deinit_len_after(&self, direct: bool, id: ProcessId) -> int {
        if direct && crate::serial::spec_dispatches(self.deinits, Some(id)) {
            self.deinits.execs@.len() - 1
        } else {
            self.deinits.execs@.len() as int
        }
    }

    /// The final-deinit marker after the drain step an exit of `id`
    /// triggers.
    pub open spec fn spec_last_deinit_after(&self, direct: bool, id: ProcessId) -> Option<
        ProcessId,
    > {
        if direct && crate::serial::spec_drained(self.deinits, Some(id)) {
            self.deinits.last_spawn
        } else {
            self.last_deinit
        }
    }

    /// The deinit queue's most recent dispatch after the drain step an exit
    /// of `id` triggers.
    pub open spec fn spec_deinit_qlast_after(&self, direct: bool, id: ProcessId) -> Option<
        ProcessId,
    > {
        if direct && crate::serial::spec_dispatches(self.deinits, Some(id)) {
            Some(crate::serial::spec_mint(self.deinits.base_id, self.deinits.idx))
        } else {
            self.deinits.last_spawn
        }
    }

    /// Whether the exit of `pid` ends the event loop: main's tree is gone
    /// and there is no deinit work to run (and the container does not
    /// persist), or the final deinit's tree is gone.
    pub open spec fn spec_exit_break(&self, pid: u32) -> bool {
        let a = spec_ancestor(self.pmap@, pid);
        match spec_tree_index(self.rpmap@, a) {
            None => false,
            Some(t) => {
                let gone = Self::spec_gone(self.rpmap@[t].1@, pid);
                if !(a == pid || gone) {
                    false
                } else {
                    match spec_first_named(self.named_process@, a) {
                        None => false,
                        Some(j) => {
                            let id = self.named_process@[j].id;
                            if !gone {
                                false
                            } else if id == ProcessId::Main {
                                (self.container.deinit_norun || self.spec_deinit_len_after(
                                    a == pid,
                                    id,
                                ) == 0) && !self.container.persist
                            } else {
                                self.spec_last_deinit_after(a == pid, id) == Some(id)
                            }
                        },
                    }
                }
            },
        }
    }

    /// Handle the exit of `pid` with `exit_code`: drop it from the
    /// registry, and when a named process's direct child exited or a whole
    /// tree is gone, record it, advance the serial queues and decide whether
    /// the loop ends. An exit the registry knows nothing about is a
    /// kernel/state desync and is skipped.
    #[verifier::rlimit(100)]
    fn handle_exit(&mut self, pid: u32, exit_code: i32, acts: &mut Vec<Action>) -> (brk: bool)
        requires
            old(self).wf(),
        ensures
            final(self).wf(),
            brk == old(self).spec_exit_break(pid),
            spec_tree_index(old(self).rpmap@, spec_ancestor(old(self).pmap@, pid)) is None ==> {
                &&& *final(self) == *old(self)
                &&& *final(acts) == *old(acts)
            },
            // registry after the event: pid is no longer tracked, nothing
            // else changes its attribution, and the trees keep their heads
            spec_tree_index(old(self).rpmap@, spec_ancestor(old(self).pmap@, pid)) is Some ==> {
                &&& spec_lookup(final(self).pmap@, pid) is None
                &&& (forall|k: u32|
                    k != pid ==> spec_lookup(final(self).pmap@, k) == spec_lookup(
                        old(self).pmap@,
                        k,
                    ))
                &&& final(self).rpmap@.len() == old(self).rpmap@.len()
                &&& (forall|t: int|
                    0 <= t < old(self).rpmap@.len() ==> #[trigger] final(self).rpmap@[t].0 == old(
                        self,
                    ).rpmap@[t].0)
            },
            // the named records: same processes in the same order, flags
            // only ever gain
            final(self).named_process@.len() == old(self).named_process@.len(),
            forall|k: int|
                0 <= k < old(self).named_process@.len() ==> {
                    &&& (#[trigger] final(self).named_process@[k]).id == old(
                        self,
                    ).named_process@[k].id
                    &&& final(self).named_process@[k].pid == old(self).named_process@[k].pid
                    &&& final(self).named_process@[k].notify == old(self).named_process@[k].notify
                    &&& final(self).named_process@[k].process_stat.exec_spec == old(
                        self,
                    ).named_process@[k].process_stat.exec_spec
                    &&& final(self).named_process@[k].process_stat.spawn_info == old(
                        self,
                    ).named_process@[k].process_stat.spawn_info
                    &&& (old(self).named_process@[k].process_stat.exited is Some ==> final(self).named_process@[k].process_stat.exited == old(
                        self,
                    ).named_process@[k].process_stat.exited)
                    &&& (old(self).named_process@[k].process_stat.tree_exited ==> final(self).named_process@[k].process_stat.tree_exited)
                },
            // frame: configuration and lifecycle stamps are untouched
            final(self).started == old(self).started,
            final(self).container == old(self).container,
            final(self).kq == old(self).kq,
            final(self).auto_start == old(self).auto_start,
            final(self).main_started == old(self).main_started,
            final(self).in_flight == old(self).in_flight,
            final(self).next_adhoc == old(self).next_adhoc,
            final(self).control_streams == old(self).control_streams,
            final(self).inits.base_id == old(self).inits.base_id,
            final(self).deinits.base_id == old(self).deinits.base_id,
            // serialization: the init queue dispatches its next element only
            // when the exit is the direct child of a named process and the
            // queue agreed to advance for exactly that process's id
            ({
                let a = spec_ancestor(old(self).pmap@, pid);
                let named = spec_first_named(old(self).named_process@, a);
                final(self).inits.idx != old(self).inits.idx ==> a == pid && named is Some
                    && crate::serial::spec_dispatches(
                    old(self).inits,
                    Some(old(self).named_process@[named->0].id),
                )
            }),
            // the deinit grace timer is armed exactly when this exit drains
            // the deinit queue
            ({
                let a = spec_ancestor(old(self).pmap@, pid);
                let named = spec_first_named(old(self).named_process@, a);
                let eligible = spec_tree_index(old(self).rpmap@, a) is Some && a == pid
                    && named is Some;
                &&& (eligible && crate::serial::spec_drained(
                    old(self).deinits,
                    Some(old(self).named_process@[named->0].id),
                ) ==> final(self).last_deinit == old(self).deinits.last_spawn && final(acts)@.contains(
                    Action::ArmDeinitTimer(DEINIT_GRACE_SECONDS as u64),
                ))
                &&& (eligible ==> final(self).named_process@[named->0].process_stat.exited == (
                if old(self).named_process@[named->0].process_stat.exited is Some {
                    old(self).named_process@[named->0].process_stat.exited
                } else {
                    Some(exit_code)
                }) && final(acts)@.contains(Action::Reap(pid)))
                &&& (eligible && crate::serial::spec_drained(
                    old(self).inits,
                    Some(old(self).named_process@[named->0].id),
                ) && !old(self).container.main_norun && old(self).container.main_proto is Some
                    ==> exists|i: int|
                    old(self).spawn_queue@.len() <= i < final(self).spawn_queue@.len()
                        && (#[trigger] final(self).spawn_queue@[i]).0 == ProcessId::Main)
            }),
            // a whole tree's disappearance: the flag is published and the
            // waiters woken; main's end is recorded; the deinit phase
            // begins when there is deinit work to run
            ({
                let a = spec_ancestor(old(self).pmap@, pid);
                let tree = spec_tree_index(old(self).rpmap@, a);
                let named = spec_first_named(old(self).named_process@, a);
                let all_gone = tree is Some && named is Some && Self::spec_gone(
                    old(self).rpmap@[tree->0].1@,
                    pid,
                );
                let id = old(self).named_process@[named->0].id;
                &&& (all_gone ==> final(self).named_process@[named->0].process_stat.tree_exited)
                &&& (all_gone ==> (old(self).named_process@[named->0].notify matches Some(nfd)
                    ==> final(acts)@.contains(Action::Notify(nfd))))
                &&& final(self).main_exited == (old(self).main_exited || (all_gone && id
                    == ProcessId::Main))
                &&& (all_gone && id == ProcessId::Main && !((old(self).container.deinit_norun
                    || old(self).spec_deinit_len_after(a == pid, id) == 0)
                    && !old(self).container.persist) ==> {
                    &&& final(self).deinits.activated
                    &&& (old(self).spec_deinit_qlast_after(a == pid, id) is None && old(
                        self,
                    ).spec_deinit_len_after(a == pid, id) > 0 ==> exists|i: int|
                        old(self).spawn_queue@.len() <= i < final(self).spawn_queue@.len() && (
                        #[trigger] final(self).spawn_queue@[i]).0 is Deinit)
                })
            }),
    {
        let ancestor = self.pid_ancestor(pid);
        match registry::tree_position(&self.rpmap, ancestor) {
            None => {
                proof {
                    registry::lemma_tree_index(self.rpmap@, ancestor);
                }
                false
            },
            Some(t) => {
                proof {
                    registry::lemma_tree_index(self.rpmap@, ancestor);
                }
                self.untrack_pid(pid);
                let gone = self.rpmap[t].1.len() == 0;
                proof {
                    let l0 = old(self).rpmap@[t as int].1@;
                    if gone {
                        assert forall|j: int| 0 <= j < l0.len() implies l0[j] == pid by {
                            if l0[j] != pid {
                                assert(self.rpmap@[t as int].1@.contains(l0[j]));
                            }
                        }
                    } else {
                        assert(self.rpmap@[t as int].1@[0] != pid);
                        assert(l0.contains(self.rpmap@[t as int].1@[0]));
                        let w = choose|w: int| 0 <= w < l0.len() && l0[w] == self.rpmap@[t as int].1@[0];
                        assert(!Self::spec_gone(l0, pid));
                    }
                }
                if ancestor == pid || gone {
                    match first_named_position(&self.named_process, ancestor) {
                        None => false,
                        Some(j) => {
                            let ghost named0 = self.named_process@;
                            proof {
                                lemma_first_named(named0, ancestor);
                            }
                            let mut stat = self.named_process.remove(j);
                            let mut brk = false;
                            let ghost reap_at = acts@.len();
                            let ghost mut main_at = self.spawn_queue@.len() as int;
                            let ghost mut timer_at: int = 0;
                            let ghost mut notify_at: int = 0;
                            let ghost mut kick_at: int = 0;
                            if ancestor == pid {
                                stat.set_exited(exit_code);
                                acts.push(Action::Reap(pid));
                                proof {
                                    assert(acts@[reap_at as int] == Action::Reap(pid));
                                }
                                let sid = stat.id;
                                let drained_inits = self.inits.try_drain_proc_queue(
                                    Some(&sid),
                                    &mut self.spawn_queue,
                                );
                                proof {
                                    main_at = self.spawn_queue@.len() as int;
                                }
                                if drained_inits && !self.container.main_norun {
                                    self.run_main();
                                    proof {
                                        if self.container.main_proto is Some {
                                            assert(self.spawn_queue@[main_at].0
                                                == ProcessId::Main);
                                        }
                                    }
                                }
                                let drained_deinits = self.deinits.try_drain_proc_queue(
                                    Some(&sid),
                                    &mut self.spawn_queue,
                                );
                                if drained_deinits {
                                    self.last_deinit = self.deinits.last_spawn;
                                    proof {
                                        timer_at = acts@.len() as int;
                                    }
                                    acts.push(Action::ArmDeinitTimer(DEINIT_GRACE_SECONDS));
                                    proof {
                                        assert(acts@[timer_at as int] == Action::ArmDeinitTimer(
                                            DEINIT_GRACE_SECONDS,
                                        ));
                                        assert(acts@.contains(Action::ArmDeinitTimer(
                                            DEINIT_GRACE_SECONDS,
                                        )));
                                    }
                                }
                            }
                            if gone {
                                stat.set_tree_exited();
                                match stat.notify {
                                    Some(fd) => {
                                        proof {
                                            notify_at = acts@.len() as int;
                                        }
                                        acts.push(Action::Notify(fd));
                                        proof {
                                            assert(acts@[notify_at] == Action::Notify(fd));
                                        }
                                    },
                                    None => {},
                                }
                                if stat.id == ProcessId::Main {
                                    self.main_exited = true;
                                    let no_deinit = self.container.deinit_norun
                                        || self.deinits.is_empty();
                                    if no_deinit && !self.container.persist {
                                        brk = true;
                                    } else {
                                        self.deinits.activate();
                                        proof {
                                            kick_at = self.spawn_queue@.len() as int;
                                        }
                                        self.deinits.try_drain_proc_queue(
                                            None,
                                            &mut self.spawn_queue,
                                        );
                                        proof {
                                            if self.spawn_queue@.len() > kick_at {
                                                assert(self.spawn_queue@[kick_at].0 is Deinit);
                                            }
                                        }
                                    }
                                } else {
                                    match self.last_deinit {
                                        Some(ld) => {
                                            if ld == stat.id {
                                                brk = true;
                                            }
                                        },
                                        None => {},
                                    }
                                }
                            }
                            self.named_process.insert(j, stat);
                            proof {
                                if ancestor == pid {
                                    assert(acts@[reap_at as int] == Action::Reap(pid));
                                    assert(acts@.contains(Action::Reap(pid)));
                                    if crate::serial::spec_drained(
                                        old(self).inits,
                                        Some(named0[j as int].id),
                                    ) && !old(self).container.main_norun && old(
                                        self,
                                    ).container.main_proto is Some {
                                        assert(self.spawn_queue@[main_at].0 == ProcessId::Main);
                                        assert(old(self).spawn_queue@.len() <= main_at
                                            < self.spawn_queue@.len());
                                    }
                                    if crate::serial::spec_drained(
                                        old(self).deinits,
                                        Some(named0[j as int].id),
                                    ) {
                                        assert(acts@[timer_at] == Action::ArmDeinitTimer(
                                            DEINIT_GRACE_SECONDS,
                                        ));
                                        assert(acts@.contains(Action::ArmDeinitTimer(
                                            DEINIT_GRACE_SECONDS,
                                        )));
                                    }
                                }
                                if gone {
                                    assert(self.named_process@[j as int].process_stat.tree_exited);
                                    match named0[j as int].notify {
                                        Some(nfd) => {
                                            assert(acts@[notify_at] == Action::Notify(nfd));
                                            assert(acts@.contains(Action::Notify(nfd)));
                                        },
                                        None => {},
                                    }
                                }
                                assert(forall|k: int|
                                    0 <= k < named0.len() ==> (#[trigger] self.named_process@[k]).pid
                                        == named0[k].pid);
                                lemma_first_named_same_pids(named0, self.named_process@);
                                assert forall|u: int|
                                    0 <= u < self.rpmap@.len() implies spec_first_named(
                                    self.named_process@,
                                    #[trigger] self.rpmap@[u].0,
                                ) is Some by {
                                    assert(spec_first_named(named0, self.rpmap@[u].0) is Some);
                                }
                            }
                            brk
                        },
                    }
                } else {
                    false
                }
            },
        }
    }

    /// A fork notification is acted on only when its ancestor is tracked
    /// and the new pid is genuinely new to the registry; anything else is a
    /// kernel/state desync and is skipped.
    pub open spec fn spec_child_accepted(&self, pid: u32, parent: u32) -> bool {
        let a = spec_ancestor(self.pmap@, parent);
        &&& spec_tree_index(self.rpmap@, a) is Some
        &&& spec_lookup(self.pmap@, pid) is None
        &&& spec_tree_index(self.rpmap@, pid) is None
        &&& !(exists|i: int, j: int|
            0 <= i < self.rpmap@.len() && 0 <= j < self.rpmap@[i].1@.len()
                && self.rpmap@[i].1@[j] == pid)
    }

    /// Handle a fork notification: attribute the new process `pid` directly
    /// to the logical ancestor of `parent` (keeping the parent map
    /// flattened) and add it to that ancestor's tree.
    fn handle_child(&mut self, pid: u32, parent: u32)
        requires
            old(self).wf(),
        ensures
            final(self).wf(),
            !old(self).spec_child_accepted(pid, parent) ==> *final(self) == *old(self),
            old(self).spec_child_accepted(pid, parent) ==> {
                let a = spec_ancestor(old(self).pmap@, parent);
                let t = spec_tree_index(old(self).rpmap@, a)->0;
                &&& spec_lookup(final(self).pmap@, pid) == Some(a)
                &&& (forall|k: u32|
                    k != pid ==> spec_lookup(final(self).pmap@, k) == spec_lookup(
                        old(self).pmap@,
                        k,
                    ))
                &&& final(self).rpmap@.len() == old(self).rpmap@.len()
                &&& (forall|u: int|
                    0 <= u < old(self).rpmap@.len() ==> #[trigger] final(self).rpmap@[u].0 == old(
                        self,
                    ).rpmap@[u].0)
                &&& final(self).rpmap@[t].1@ == old(self).rpmap@[t].1@.push(pid)
                &&& (forall|u: int|
                    0 <= u < old(self).rpmap@.len() && u != t ==> #[trigger] final(self).rpmap@[u].1 == old(self).rpmap@[u].1)
                &&& *final(self) == (ProcessRunner {
                    pmap: final(self).pmap,
                    rpmap: final(self).rpmap,
                    ..*old(self)
                })
            },
    {
        let ancestor = self.pid_ancestor(parent);
        let t = match registry::tree_position(&self.rpmap, ancestor) {
            None => {
                proof {
                    registry::lemma_tree_index(self.rpmap@, ancestor);
                }
                return ;
            },
            Some(t) => {
                proof {
                    registry::lemma_tree_index(self.rpmap@, ancestor);
                }
                t
            },
        };
        if registry::map_get(&self.pmap, pid).is_some() {
            return ;
        }
        match registry::tree_position(&self.rpmap, pid) {
            Some(_) => {
                proof {
                    registry::lemma_tree_index(self.rpmap@, pid);
                }
                return ;
            },
            None => {
                proof {
                    registry::lemma_tree_index(self.rpmap@, pid);
                }
            },
        }
        if registry::pid_in_any_tree(&self.rpmap, pid) {
            return ;
        }
        let ghost pre = *self;
        self.pmap.push((pid, ancestor));
        let entry = self.rpmap.remove(t);
        let key = entry.0;
        let mut l = entry.1;
        l.push(pid);
        self.rpmap.insert(t, (key, l));
        proof {
            let pm1 = pre.pmap@;
            let pm2 = self.pmap@;
            let rm1 = pre.rpmap@;
            let rm2 = self.rpmap@;
            assert(rm2 =~= rm1.remove(t as int).insert(t as int, (key, rm2[t as int].1)));
            assert(forall|u: int| 0 <= u < rm2.len() ==> #[trigger] rm2[u].0 == rm1[u].0);
            assert(forall|u: int|
                0 <= u < rm2.len() && u != t ==> #[trigger] rm2[u].1 == rm1[u].1);
            registry::lemma_lookup_iff(pm1, pid);
            assert forall|k: u32| k != pid implies spec_lookup(pm2, k) == spec_lookup(
                pm1,
                k,
            ) by {
                registry::lemma_lookup_push(pm1, (pid, ancestor), k);
            }
            registry::lemma_lookup_push(pm1, (pid, ancestor), pid);
            assert(spec_lookup(pm2, pid) == Some(ancestor));
            // keys stay distinct: the new key resolves nowhere in the old map
            assert forall|i: int, j: int| 0 <= i < j < pm2.len() implies pm2[i].0 != pm2[j].0 by {
                if j == pm1.len() {
                    if pm2[i].0 == pid {
                        assert(pm1[i].0 == pid);
                        registry::lemma_lookup_iff(pm1, pid);
                    }
                }
            }
            // flattened: no value of the map is itself a key
            assert forall|i: int| 0 <= i < pm2.len() implies spec_lookup(
                pm2,
                #[trigger] pm2[i].1,
            ) is None by {
                registry::lemma_lookup_push(pm1, (pid, ancestor), pm2[i].1);
                if i < pm1.len() {
                    assert(spec_lookup(pm1, pm1[i].1) is None);
                    assert(spec_tree_index(rm1, pm1[i].1) is Some);
                    registry::lemma_tree_index(rm1, pm1[i].1);
                    let w = choose|w: int| 0 <= w < rm1.len() && rm1[w].0 == pm1[i].1;
                    assert(pm2[i].1 != pid);
                } else {
                    assert(pm2[i].1 == ancestor);
                    assert(spec_lookup(pm1, ancestor) is None) by {
                        if spec_lookup(pm1, parent) is Some {
                            registry::lemma_lookup_found(pm1, parent);
                            let w = choose|w: int|
                                0 <= w < pm1.len() && pm1[w].0 == parent && pm1[w].1
                                    == spec_lookup(pm1, parent)->0;
                            assert(spec_lookup(pm1, pm1[w].1) is None);
                        } else {
                            assert(ancestor == parent);
                            assert(spec_lookup(pm1, rm1[t as int].0) is None);
                        }
                    }
                    assert(ancestor != pid);
                }
            }
            // every value heads a tree
            assert forall|i: int| 0 <= i < pm2.len() implies spec_tree_index(
                rm2,
                #[trigger] pm2[i].1,
            ) is Some by {
                let v = pm2[i].1;
                if i < pm1.len() {
                    registry::lemma_tree_index(rm1, v);
                } else {
                    assert(v == ancestor);
                    registry::lemma_tree_index(rm1, v);
                }
                let w = choose|w: int| 0 <= w < rm1.len() && rm1[w].0 == v;
                assert(rm2[w].0 == v);
                registry::lemma_tree_index(rm2, v);
            }
            // tree heads are not tracked as descendants
            assert forall|i: int| 0 <= i < rm2.len() implies spec_lookup(
                pm2,
                #[trigger] rm2[i].0,
            ) is None by {
                registry::lemma_lookup_push(pm1, (pid, ancestor), rm2[i].0);
                assert(spec_lookup(pm1, rm1[i].0) is None);
                registry::lemma_tree_index(rm1, pid);
                assert(rm2[i].0 != pid);
            }
            // members are attributed to their tree's head
            assert forall|i: int, j: int|
                0 <= i < rm2.len() && 0 <= j < rm2[i].1@.len() implies (#[trigger] rm2[i].1@[j]
                == rm2[i].0 || spec_lookup(pm2, rm2[i].1@[j]) == Some(rm2[i].0)) by {
                let x = rm2[i].1@[j];
                if i == t && j == rm1[t as int].1@.len() {
                    assert(x == pid);
                    assert(rm2[t as int].0 == ancestor);
                } else {
                    assert(x == rm1[i].1@[j]);
                    assert(x != pid);
                    registry::lemma_lookup_push(pm1, (pid, ancestor), x);
                }
            }
            // tree heads are named
            assert forall|i: int| 0 <= i < rm2.len() implies spec_first_named(
                self.named_process@,
                #[trigger] rm2[i].0,
            ) is Some by {
                assert(spec_first_named(pre.named_process@, rm1[i].0) is Some);
            }
        }
    }

    /// Route a kernel process event: an exit may end the loop, a fork
    /// notification only extends the registry. The exit and fork contracts
    /// below mirror, clause for clause, what the two handlers guarantee.
    #[verifier::rlimit(60)]
    pub fn handle_pid_event(&mut self, ev: PidEvent, acts: &mut Vec<Action>) -> (brk: bool)
        requires
            old(self).wf(),
        ensures
            final(self).wf(),
            ev matches PidEvent::ChildForked { pid, parent } ==> !brk && *final(acts) == *old(
                acts,
            ),
            ev matches PidEvent::Exited { pid, exit_code } ==> (brk == old(self).spec_exit_break(pid)),
            ev matches PidEvent::Exited { pid, exit_code } ==> (spec_tree_index(old(self).rpmap@, spec_ancestor(old(self).pmap@, pid)) is None ==> {
                &&& *final(self) == *old(self)
                &&& *final(acts) == *old(acts)
            }),
            ev matches PidEvent::Exited { pid, exit_code } ==> (spec_tree_index(old(self).rpmap@, spec_ancestor(old(self).pmap@, pid)) is Some ==> {
                &&& spec_lookup(final(self).pmap@, pid) is None
                &&& (forall|k: u32|
                    k != pid ==> spec_lookup(final(self).pmap@, k) == spec_lookup(
                        old(self).pmap@,
                        k,
                    ))
                &&& final(self).rpmap@.len() == old(self).rpmap@.len()
                &&& (forall|t: int|
                    0 <= t < old(self).rpmap@.len() ==> #[trigger] final(self).rpmap@[t].0 == old(
                        self,
                    ).rpmap@[t].0)
            }),
            ev matches PidEvent::Exited { pid, exit_code } ==> (final(self).named_process@.len() == old(self).named_process@.len()),
            ev matches PidEvent::Exited { pid, exit_code } ==> (forall|k: int|
                0 <= k < old(self).named_process@.len() ==> {
                    &&& (#[trigger] final(self).named_process@[k]).id == old(
                        self,
                    ).named_process@[k].id
                    &&& final(self).named_process@[k].pid == old(self).named_process@[k].pid
                    &&& final(self).named_process@[k].notify == old(self).named_process@[k].notify
                    &&& final(self).named_process@[k].process_stat.exec_spec == old(
                        self,
                    ).named_process@[k].process_stat.exec_spec
                    &&& final(self).named_process@[k].process_stat.spawn_info == old(
                        self,
                    ).named_process@[k].process_stat.spawn_info
                    &&& (old(self).named_process@[k].process_stat.exited is Some ==> final(self).named_process@[k].process_stat.exited == old(
                        self,
                    ).named_process@[k].process_stat.exited)
                    &&& (old(self).named_process@[k].process_stat.tree_exited ==> final(self).named_process@[k].process_stat.tree_exited)
                }),
            ev matches PidEvent::Exited { pid, exit_code } ==> (final(self).started == old(self).started),
            ev matches PidEvent::Exited { pid, exit_code } ==> (final(self).container == old(self).container),
            ev matches PidEvent::Exited { pid, exit_code } ==> (final(self).kq == old(self).kq),
            ev matches PidEvent::Exited { pid, exit_code } ==> (final(self).auto_start == old(self).auto_start),
            ev matches PidEvent::Exited { pid, exit_code } ==> (final(self).main_started == old(self).main_started),
            ev matches PidEvent::Exited { pid, exit_code } ==> (final(self).in_flight == old(self).in_flight),
            ev matches PidEvent::Exited { pid, exit_code } ==> (final(self).next_adhoc == old(self).next_adhoc),
            ev matches PidEvent::Exited { pid, exit_code } ==> (final(self).control_streams == old(self).control_streams),
            ev matches PidEvent::Exited { pid, exit_code } ==> (final(self).inits.base_id == old(self).inits.base_id),
            ev matches PidEvent::Exited { pid, exit_code } ==> (final(self).deinits.base_id == old(self).deinits.base_id),
            ev matches PidEvent::Exited { pid, exit_code } ==> (({
                let a = spec_ancestor(old(self).pmap@, pid);
                let named = spec_first_named(old(self).named_process@, a);
                final(self).inits.idx != old(self).inits.idx ==> a == pid && named is Some
                    && crate::serial::spec_dispatches(
                    old(self).inits,
                    Some(old(self).named_process@[named->0].id),
                )
            })),
            ev matches PidEvent::Exited { pid, exit_code } ==> (({
                let a = spec_ancestor(old(self).pmap@, pid);
                let named = spec_first_named(old(self).named_process@, a);
                let eligible = spec_tree_index(old(self).rpmap@, a) is Some && a == pid
                    && named is Some;
                &&& (eligible && crate::serial::spec_drained(
                    old(self).deinits,
                    Some(old(self).named_process@[named->0].id),
                ) ==> final(self).last_deinit == old(self).deinits.last_spawn && final(acts)@.contains(
                    Action::ArmDeinitTimer(DEINIT_GRACE_SECONDS as u64),
                ))
                &&& (eligible ==> final(self).named_process@[named->0].process_stat.exited == (
                if old(self).named_process@[named->0].process_stat.exited is Some {
                    old(self).named_process@[named->0].process_stat.exited
                } else {
                    Some(exit_code)
                }) && final(acts)@.contains(Action::Reap(pid)))
                &&& (eligible && crate::serial::spec_drained(
                    old(self).inits,
                    Some(old(self).named_process@[named->0].id),
                ) && !old(self).container.main_norun && old(self).container.main_proto is Some
                    ==> exists|i: int|
                    old(self).spawn_queue@.len() <= i < final(self).spawn_queue@.len()
                        && (#[trigger] final(self).spawn_queue@[i]).0 == ProcessId::Main)
            })),
            ev matches PidEvent::Exited { pid, exit_code } ==> (({
                let a = spec_ancestor(old(self).pmap@, pid);
                let tree = spec_tree_index(old(self).rpmap@, a);
                let named = spec_first_named(old(self).named_process@, a);
                let all_gone = tree is Some && named is Some && Self::spec_gone(
                    old(self).rpmap@[tree->0].1@,
                    pid,
                );
                let id = old(self).named_process@[named->0].id;
                &&& (all_gone ==> final(self).named_process@[named->0].process_stat.tree_exited)
                &&& (all_gone ==> (old(self).named_process@[named->0].notify matches Some(nfd)
                    ==> final(acts)@.contains(Action::Notify(nfd))))
                &&& final(self).main_exited == (old(self).main_exited || (all_gone && id
                    == ProcessId::Main))
                &&& (all_gone && id == ProcessId::Main && !((old(self).container.deinit_norun
                    || old(self).spec_deinit_len_after(a == pid, id) == 0)
                    && !old(self).container.persist) ==> {
                    &&& final(self).deinits.activated
                    &&& (old(self).spec_deinit_qlast_after(a == pid, id) is None && old(
                        self,
                    ).spec_deinit_len_after(a == pid, id) > 0 ==> exists|i: int|
                        old(self).spawn_queue@.len() <= i < final(self).spawn_queue@.len() && (
                        #[trigger] final(self).spawn_queue@[i]).0 is Deinit)
                })
            })),
            ev matches PidEvent::ChildForked { pid, parent } ==> (!old(self).spec_child_accepted(pid, parent) ==> *final(self) == *old(self)),
            ev matches PidEvent::ChildForked { pid, parent } ==> (old(self).spec_child_accepted(pid, parent) ==> {
                let a = spec_ancestor(old(self).pmap@, parent);
                let t = spec_tree_index(old(self).rpmap@, a)->0;
                &&& spec_lookup(final(self).pmap@, pid) == Some(a)
                &&& (forall|k: u32|
                    k != pid ==> spec_lookup(final(self).pmap@, k) == spec_lookup(
                        old(self).pmap@,
                        k,
                    ))
                &&& final(self).rpmap@.len() == old(self).rpmap@.len()
                &&& (forall|u: int|
                    0 <= u < old(self).rpmap@.len() ==> #[trigger] final(self).rpmap@[u].0 == old(
                        self,
                    ).rpmap@[u].0)
                &&& final(self).rpmap@[t].1@ == old(self).rpmap@[t].1@.push(pid)
                &&& (forall|u: int|
                    0 <= u < old(self).rpmap@.len() && u != t ==> #[trigger] final(self).rpmap@[u].1 == old(self).rpmap@[u].1)
                &&& *final(self) == (ProcessRunner {
                    pmap: final(self).pmap,
                    rpmap: final(self).rpmap,
                    ..*old(self)
                })
            }),
    {
        match ev {
            PidEvent::Exited { pid, exit_code } => self.handle_exit(pid, exit_code, acts),
            PidEvent::ChildForked { pid, parent } => {
                self.handle_child(pid, parent);
                false
            },
        }
    }

    /// Enqueue the container's main process for the next spawn pass, when a
    /// main proto exists.
    pub fn run_main(&mut self)
        ensures
            old(self).wf() ==> final(self).wf(),
            old(self).container.main_proto is None ==> *final(self) == *old(self),
            old(self).container.main_proto is Some ==> {
                &&& final(self).spawn_queue@.len() == old(self).spawn_queue@.len() + 1
                &&& final(self).spawn_queue@.last().0 == ProcessId::Main
                &&& crate::process::spec_exec_eq(
                    final(self).spawn_queue@.last().1,
                    old(self).container.main_proto->0,
                )
                &&& final(self).spawn_queue@.take(old(self).spawn_queue@.len() as int) == old(
                    self,
                ).spawn_queue@
                &&& *final(self) == (ProcessRunner {
                    spawn_queue: final(self).spawn_queue,
                    ..*old(self)
                })
            },
    {
        match &self.container.main_proto {
            Some(main) => {
                let copy = main.snapshot();
                self.spawn_queue.push((ProcessId::Main, copy));
                proof {
                    assert(self.spawn_queue@.take(old(self).spawn_queue@.len() as int) =~= old(
                        self,
                    ).spawn_queue@);
                }
            },
            None => {},
        }
    }
}

} // verus!
