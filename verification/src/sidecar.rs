//! The sidecar supervisor: the registry of worker processes by session, the
//! port allocator, and the decisions of starting and stopping a worker.
//!
//! The supervisor never touches a process itself. It holds each process handle
//! as an opaque value of type `P`, decides what is to be done with it, and is
//! told what came of it.

use vstd::prelude::*;
use vstd::string::*;
use crate::pids::{parse_pids, scanned_pids};
use crate::table::Table;
use crate::text::{decimal, push_decimal, same_text};

verus! {

/// The session id of the worker that the whole application shares.
pub const GLOBAL_SIDECAR_ID: &'static str = "__global__";

/// The first port that the allocator hands out.
pub const BASE_PORT: u16 = 32415;

/// The argument that marks a process as a worker of this application.
pub const SIDECAR_MARKER: &'static str = "--soagents-sidecar";

/// The environment variable in which a worker finds its port.
pub const PORT_VARIABLE: &'static str = "PORT";

/// What a look at a worker process found.
#[derive(Clone, Copy, Debug, PartialEq, Eq)]
pub enum ProcessStatus {
    /// The process has not exited.
    Running,
    /// The process has exited.
    Exited,
    /// The look itself failed.
    Unknown,
}

/// One supervised worker.
#[derive(Debug, PartialEq, Eq)]
pub struct SidecarInstance<P> {
    pub process: P,
    pub port: u16,
    pub agent_dir: Option<String>,
    pub healthy: bool,
}

/// Where the entry script of the worker lies, as far as the supervisor reads
/// it.
#[derive(Debug, PartialEq, Eq)]
pub struct ScriptLocation {
    /// The extension of the script's file name.
    pub extension: Option<String>,
    /// The directory that holds the script.
    pub parent: Option<String>,
    /// The directory three levels above the script: the root of a
    /// development tree.
    pub project_root: Option<String>,
}

/// What a worker is to be launched with.
#[derive(Debug, PartialEq, Eq)]
pub struct LaunchPlan {
    /// The port of the worker.
    pub port: u16,
    /// The port as the decimal numeral that the worker finds in its
    /// environment.
    pub port_text: String,
    /// The directory in which the worker runs.
    pub cwd: String,
}

/// What starting a worker for a session comes to.
#[derive(Debug, PartialEq, Eq)]
pub enum StartStep<P> {
    /// The session has a running worker on `port`: nothing is launched.
    Reuse { port: u16 },
    /// A worker is to be launched by `plan`. `stale` is the worker that the
    /// session had and that is no longer running.
    Launch { plan: LaunchPlan, stale: Option<SidecarInstance<P>> },
}

/// The directory in which the worker runs: beside a bundled script (one with
/// the extension `js`), at the project root for a script of a development
/// tree, and the current directory where that directory is not known.
pub open spec fn working_dir(location: ScriptLocation) -> Seq<char> {
    let dir = if location.extension is Some && location.extension->0@ == "js"@ {
        location.parent
    } else {
        location.project_root
    };
    match dir {
        Some(d) => d@,
        None => "."@,
    }
}

/// The directory in which the worker runs.
pub fn worker_cwd(location: &ScriptLocation) -> (cwd: String)
    ensures
        cwd@ == working_dir(*location),
{
    let bundled = match &location.extension {
        Some(e) => same_text(e.as_str(), "js"),
        None => false,
    };
    let dir = if bundled {
        &location.parent
    } else {
        &location.project_root
    };
    match dir {
        Some(d) => d.clone(),
        None => String::from_str("."),
    }
}

/// The error of a start whose worker could not be launched.
pub fn spawn_error(reason: &str) -> (message: String)
    ensures
        message@ == "Failed to spawn bun process: "@ + reason@,
{
    let mut message = String::from_str("Failed to spawn bun process: ");
    message.append(reason);
    message
}

/// What the supervisor holds: the workers by session id, and the port that
/// the allocator hands out next.
pub struct SupervisorView<P> {
    pub instances: Map<Seq<char>, SidecarInstance<P>>,
    pub next_port: u16,
}

/// The registry of workers and the port allocator.
pub struct SidecarManager<P> {
    instances: Table<SidecarInstance<P>>,
    port_counter: u16,
}

impl<P> View for SidecarManager<P> {
    type V = SupervisorView<P>;

    closed spec fn view(&self) -> SupervisorView<P> {
        SupervisorView { instances: self.instances.map(), next_port: self.port_counter }
    }
}

/// The port that the allocator hands out after `port`: the next one, and zero
/// after the last.
pub open spec fn port_after(port: u16) -> u16 {
    if port == u16::MAX {
        0
    } else {
        (port + 1) as u16
    }
}

/// The port that the `n`-th allocation returns (counting from zero), when the
/// allocator stood at `start` before the first.
pub open spec fn nth_port(start: u16, n: nat) -> u16
    decreases n,
{
    if n == 0 {
        start
    } else {
        port_after(nth_port(start, (n - 1) as nat))
    }
}

/// As long as the allocator does not pass the last port, the `n`-th
/// allocation returns the start plus `n`.
pub proof fn lemma_nth_port(start: u16, n: nat)
    requires
        start + n <= u16::MAX,
    ensures
        nth_port(start, n) == start + n,
    decreases n,
{
    if n > 0 {
        lemma_nth_port(start, (n - 1) as nat);
    }
}

/// Allocations that do not pass the last port return strictly increasing, and
/// so pairwise distinct, ports.
pub proof fn lemma_ports_increase(start: u16, i: nat, j: nat)
    requires
        i < j,
        start + j <= u16::MAX,
    ensures
        nth_port(start, i) < nth_port(start, j),
        nth_port(start, i) != nth_port(start, j),
{
    lemma_nth_port(start, i);
    lemma_nth_port(start, j);
}

/// Whether a start for `tab_id` finds a worker to reuse: the session has one
/// and it was found running.
pub open spec fn reuses<P>(s: SupervisorView<P>, tab_id: Seq<char>, status: ProcessStatus) -> bool {
    s.instances.dom().contains(tab_id) && status is Running
}

/// The supervisor after the decision of a start for `tab_id`: unchanged where
/// a worker is reused; else without the session's stale worker, and with one
/// port handed out.
pub open spec fn after_start<P>(
    s: SupervisorView<P>,
    tab_id: Seq<char>,
    status: ProcessStatus,
) -> SupervisorView<P> {
    if reuses(s, tab_id, status) {
        s
    } else {
        SupervisorView {
            instances: s.instances.remove(tab_id),
            next_port: port_after(s.next_port),
        }
    }
}

/// The supervisor after `instance` was recorded for `tab_id`.
pub open spec fn after_register<P>(
    s: SupervisorView<P>,
    tab_id: Seq<char>,
    instance: SidecarInstance<P>,
) -> SupervisorView<P> {
    SupervisorView { instances: s.instances.insert(tab_id, instance), next_port: s.next_port }
}

/// Whether every recorded port was handed out before the port that the
/// allocator hands out next.
pub open spec fn allocator_is_ahead<P>(s: SupervisorView<P>) -> bool {
    forall|tab_id: Seq<char>| #[trigger]
        s.instances.dom().contains(tab_id) ==> s.instances[tab_id].port < s.next_port
}

/// A start that is repeated while the worker is running returns the port of
/// the first start, launches nothing and leaves the registry as it is: the
/// session keeps its one worker.
pub proof fn lemma_start_is_idempotent<P>(
    s: SupervisorView<P>,
    tab_id: Seq<char>,
    status: ProcessStatus,
    instance: SidecarInstance<P>,
)
    requires
        !reuses(s, tab_id, status),
        instance.port == s.next_port,
    ensures
        reuses(after_register(after_start(s, tab_id, status), tab_id, instance), tab_id, ProcessStatus::Running),
        after_register(after_start(s, tab_id, status), tab_id, instance).instances[tab_id].port
            == s.next_port,
        after_start(
            after_register(after_start(s, tab_id, status), tab_id, instance),
            tab_id,
            ProcessStatus::Running,
        ) == after_register(after_start(s, tab_id, status), tab_id, instance),
{
}

/// A start for a session whose worker has exited takes the stale worker out
/// and launches on a port that no recorded worker has, the stale one
/// included, as long as the allocator has not passed the last port. Once the
/// new worker is recorded, the allocator is ahead of every recorded port
/// again.
pub proof fn lemma_restart_takes_fresh_port<P>(
    s: SupervisorView<P>,
    tab_id: Seq<char>,
    status: ProcessStatus,
    instance: SidecarInstance<P>,
)
    requires
        allocator_is_ahead(s),
        s.next_port < u16::MAX,
        !(status is Running),
        instance.port == s.next_port,
    ensures
        !after_start(s, tab_id, status).instances.dom().contains(tab_id),
        forall|other: Seq<char>| #[trigger]
            s.instances.dom().contains(other) ==> s.instances[other].port != s.next_port,
        allocator_is_ahead(after_register(after_start(s, tab_id, status), tab_id, instance)),
{
    let done = after_register(after_start(s, tab_id, status), tab_id, instance);
    assert forall|other: Seq<char>| #[trigger]
        done.instances.dom().contains(other) implies done.instances[other].port
        < done.next_port by {
        if other != tab_id {
            assert(s.instances.dom().contains(other));
        }
    }
}

impl<P> SidecarManager<P> {
    /// The invariant of the registry: one worker per session id at most.
    pub closed spec fn wf(&self) -> bool {
        self.instances.wf()
    }

    /// A supervisor without workers, whose allocator stands at the base port.
    pub fn new() -> (manager: SidecarManager<P>)
        ensures
            manager.wf(),
            manager@.instances == Map::<Seq<char>, SidecarInstance<P>>::empty(),
            manager@.next_port == BASE_PORT,
    {
        SidecarManager { instances: Table::new(), port_counter: BASE_PORT }
    }

    /// Hands out the next port. No port is handed out twice before the
    /// allocator has passed the last port.
    pub fn next_port(&mut self) -> (port: u16)
        requires
            old(self).wf(),
        ensures
            final(self).wf(),
            port == old(self)@.next_port,
            final(self)@.next_port == port_after(port),
            final(self)@.instances == old(self)@.instances,
    {
        let port = self.port_counter;
        self.port_counter = port.wrapping_add(1);
        port
    }

    /// The port of the worker of `tab_id`, if the session has one.
    pub fn get_port(&self, tab_id: &str) -> (port: Option<u16>)
        requires
            self.wf(),
        ensures
            port == if self@.instances.dom().contains(tab_id@) {
                Some(self@.instances[tab_id@].port)
            } else {
                None
            },
    {
        match self.instances.get(tab_id) {
            Some(instance) => Some(instance.port),
            None => None,
        }
    }

    /// The worker of `tab_id`, if the session has one.
    pub fn get_instance(&self, tab_id: &str) -> (instance: Option<&SidecarInstance<P>>)
        requires
            self.wf(),
        ensures
            match instance {
                Some(i) => self@.instances.dom().contains(tab_id@) && *i
                    == self@.instances[tab_id@],
                None => !self@.instances.dom().contains(tab_id@),
            },
    {
        self.instances.get(tab_id)
    }

    /// The process handle of the worker of `tab_id`, to look at or signal the
    /// process through it. Nothing else of the registry changes.
    pub fn process_mut(&mut self, tab_id: &str) -> (process: Option<&mut P>)
        requires
            old(self).wf(),
        ensures
            final(self).wf(),
            final(self)@.next_port == old(self)@.next_port,
            match process {
                Some(p) => old(self)@.instances.dom().contains(tab_id@) && *p
                    == old(self)@.instances[tab_id@].process && final(self)@.instances == old(
                    self,
                )@.instances.insert(
                    tab_id@,
                    SidecarInstance {
                        process: *final(p),
                        port: old(self)@.instances[tab_id@].port,
                        agent_dir: old(self)@.instances[tab_id@].agent_dir,
                        healthy: old(self)@.instances[tab_id@].healthy,
                    },
                ),
                None => !old(self)@.instances.dom().contains(tab_id@) && final(self)@.instances
                    == old(self)@.instances,
            },
    {
        match self.instances.get_mut(tab_id) {
            Some(instance) => Some(&mut instance.process),
            None => None,
        }
    }

    /// Decides a start for the session `tab_id`. `status` is what a look at
    /// the session's process found; it is not read where the session has no
    /// worker. A running worker is reused. Otherwise the session's stale
    /// worker leaves the registry, a port is handed out and a launch is
    /// planned.
    pub fn start_sidecar(
        &mut self,
        tab_id: &str,
        status: ProcessStatus,
        location: &ScriptLocation,
    ) -> (step: StartStep<P>)
        requires
            old(self).wf(),
        ensures
            final(self).wf(),
            final(self)@ == after_start(old(self)@, tab_id@, status),
            match step {
                StartStep::Reuse { port } => reuses(old(self)@, tab_id@, status) && port == old(
                    self,
                )@.instances[tab_id@].port,
                StartStep::Launch { plan, stale } => !reuses(old(self)@, tab_id@, status)
                    && plan.port == old(self)@.next_port && plan.port_text@ == decimal(
                    plan.port as nat,
                ) && plan.cwd@ == working_dir(*location) && stale == if old(
                    self,
                )@.instances.dom().contains(tab_id@) {
                    Some(old(self)@.instances[tab_id@])
                } else {
                    None
                },
            },
    {
        let running = match status {
            ProcessStatus::Running => true,
            _ => false,
        };
        if running {
            if let Some(port) = self.get_port(tab_id) {
                return StartStep::Reuse { port };
            }
        }
        let stale = self.instances.remove(tab_id);
        let port = self.next_port();
        let mut port_text = String::new();
        push_decimal(&mut port_text, port as u64);
        let cwd = worker_cwd(location);
        assert(port_text@ =~= decimal(port as nat));
        StartStep::Launch { plan: LaunchPlan { port, port_text, cwd }, stale }
    }

    /// Ends a start: records the launched worker for `tab_id`, ready or not,
    /// and returns its port. A worker whose readiness was not confirmed is
    /// recorded as unhealthy; the start does not fail for it. The worker that
    /// the new one displaces, if any, is returned with the port.
    pub fn finish_start(
        &mut self,
        tab_id: String,
        agent_dir: Option<String>,
        port: u16,
        process: P,
        healthy: bool,
    ) -> (started: (u16, Option<SidecarInstance<P>>))
        requires
            old(self).wf(),
        ensures
            final(self).wf(),
            final(self)@ == after_register(
                old(self)@,
                tab_id@,
                SidecarInstance { process, port, agent_dir, healthy },
            ),
            started.0 == port,
            started.1 == if old(self)@.instances.dom().contains(tab_id@) {
                Some(old(self)@.instances[tab_id@])
            } else {
                None
            },
    {
        let displaced = self.instances.insert(
            tab_id,
            SidecarInstance { process, port, agent_dir, healthy },
        );
        (port, displaced)
    }

    /// Takes the worker of `tab_id` out of the registry and returns it, for
    /// its process to be terminated. Does nothing for a session without a
    /// worker.
    pub fn stop_sidecar(&mut self, tab_id: &str) -> (stopped: Option<SidecarInstance<P>>)
        requires
            old(self).wf(),
        ensures
            final(self).wf(),
            final(self)@.next_port == old(self)@.next_port,
            final(self)@.instances == old(self)@.instances.remove(tab_id@),
            stopped == if old(self)@.instances.dom().contains(tab_id@) {
                Some(old(self)@.instances[tab_id@])
            } else {
                None
            },
            !old(self)@.instances.dom().contains(tab_id@) ==> final(self)@ == old(self)@,
    {
        let stopped = self.instances.remove(tab_id);
        proof {
            if !old(self)@.instances.dom().contains(tab_id@) {
                assert(old(self)@.instances.remove(tab_id@) =~= old(self)@.instances);
            }
        }
        stopped
    }

    /// Takes every worker out of the registry and returns them, each with
    /// its session id, for their processes to be terminated.
    pub fn stop_all(&mut self) -> (stopped: Vec<(String, SidecarInstance<P>)>)
        requires
            old(self).wf(),
        ensures
            final(self).wf(),
            final(self)@.next_port == old(self)@.next_port,
            final(self)@.instances == Map::<Seq<char>, SidecarInstance<P>>::empty(),
            crate::table::distinct_ids(stopped@),
            crate::table::entries_map(stopped@) == old(self)@.instances,
    {
        self.instances.take_all()
    }

    /// The number of workers.
    pub fn len(&self) -> (count: usize)
        requires
            self.wf(),
        ensures
            self@.instances.dom().finite(),
            count == self@.instances.dom().len(),
    {
        proof {
            self.instances.lemma_order();
        }
        self.instances.len()
    }
}

/// How long a stopped worker is given to exit, in seconds.
pub const STOP_TIMEOUT_SECS: u64 = 5;

/// The pause between two looks at a stopped worker, in milliseconds.
pub const STOP_INTERVAL_MS: u64 = 100;

/// What is to be done next with a worker that was told to terminate.
#[derive(Clone, Copy, Debug, PartialEq, Eq)]
pub enum StopAction {
    /// Nothing more: the process has exited, or it cannot be looked at.
    Finished,
    /// Pause for `millis` milliseconds and look again.
    Wait { millis: u64 },
    /// The process outlived the timeout: kill it by force and leave it.
    ForceKill,
}

/// What is to be done with a stopped worker whose process was found in
/// `status`, `secs` seconds and `nanos` nanoseconds after it was told to
/// terminate.
pub open spec fn stop_action(status: ProcessStatus, secs: u64, nanos: u32) -> StopAction {
    match status {
        ProcessStatus::Running => if secs > STOP_TIMEOUT_SECS || (secs == STOP_TIMEOUT_SECS
            && nanos > 0) {
            StopAction::ForceKill
        } else {
            StopAction::Wait { millis: STOP_INTERVAL_MS }
        },
        _ => StopAction::Finished,
    }
}

/// Decides what is to be done with a stopped worker whose process was found
/// in `status`, `secs` seconds and `nanos` nanoseconds after it was told to
/// terminate.
pub fn termination_step(status: ProcessStatus, secs: u64, nanos: u32) -> (action: StopAction)
    ensures
        action == stop_action(status, secs, nanos),
{
    match status {
        ProcessStatus::Running => {
            if secs > STOP_TIMEOUT_SECS || (secs == STOP_TIMEOUT_SECS && nanos > 0) {
                StopAction::ForceKill
            } else {
                StopAction::Wait { millis: STOP_INTERVAL_MS }
            }
        },
        _ => StopAction::Finished,
    }
}

/// The text that the command line of a worker of an earlier run holds.
pub const STALE_PATTERN: &'static str = "soagents-sidecar";

/// How long workers of an earlier run are given to exit, in milliseconds.
pub const REAP_GRACE_MS: u64 = 300;

/// How a process is told to end.
#[derive(Clone, Copy, Debug, PartialEq, Eq)]
pub enum Signal {
    /// The process is asked to terminate.
    Terminate,
    /// The process is killed.
    Kill,
}

/// One step of removing the workers of an earlier run.
#[derive(Clone, Copy, Debug, PartialEq, Eq)]
pub enum ReaperAction {
    /// Send `signal` to the process `pid`.
    Send { pid: i32, signal: Signal },
    /// Pause for `millis` milliseconds.
    Wait { millis: u64 },
}

/// The process ids of `pids` other than `current_pid`, in order.
pub open spec fn reap_targets(pids: Seq<i32>, current_pid: i32) -> Seq<i32>
    decreases pids.len(),
{
    if pids.len() == 0 {
        Seq::empty()
    } else if pids.last() == current_pid {
        reap_targets(pids.drop_last(), current_pid)
    } else {
        reap_targets(pids.drop_last(), current_pid).push(pids.last())
    }
}

/// `signal` for each of `targets`, in order.
pub open spec fn signals_to(targets: Seq<i32>, signal: Signal) -> Seq<ReaperAction> {
    Seq::new(targets.len(), |i: int| ReaperAction::Send { pid: targets[i], signal })
}

/// The steps that remove the processes `pids`, found by a scan, when the
/// scanning process is `current_pid`: every process but the scanning one is
/// asked to terminate, then comes the grace period, then every one of them is
/// killed. Where the scan found nothing, nothing is done.
pub open spec fn reaper_plan(pids: Seq<i32>, current_pid: i32) -> Seq<ReaperAction> {
    if pids.len() == 0 {
        Seq::empty()
    } else {
        signals_to(reap_targets(pids, current_pid), Signal::Terminate).push(
            ReaperAction::Wait { millis: REAP_GRACE_MS },
        ) + signals_to(reap_targets(pids, current_pid), Signal::Kill)
    }
}

/// A process is a target exactly if the scan found it and it is not the
/// scanning process.
pub proof fn lemma_reap_target(pids: Seq<i32>, current_pid: i32, pid: i32)
    ensures
        reap_targets(pids, current_pid).contains(pid) <==> pids.contains(pid) && pid
            != current_pid,
    decreases pids.len(),
{
    let targets = reap_targets(pids, current_pid);
    if pids.len() > 0 {
        let rest = pids.drop_last();
        let inner = reap_targets(rest, current_pid);
        lemma_reap_target(rest, current_pid, pid);
        if targets.contains(pid) {
            let i = choose|i: int| 0 <= i < targets.len() && targets[i] == pid;
            if i < inner.len() {
                assert(inner[i] == pid);
                assert(inner.contains(pid));
                assert(rest.contains(pid));
                let j = choose|j: int| 0 <= j < rest.len() && rest[j] == pid;
                assert(pids[j] == pid);
            } else {
                assert(pids[pids.len() - 1] == pid);
            }
        }
        if pids.contains(pid) && pid != current_pid {
            let j = choose|j: int| 0 <= j < pids.len() && pids[j] == pid;
            if j < rest.len() {
                assert(rest[j] == pid);
                assert(rest.contains(pid));
                assert(inner.contains(pid));
                let i = choose|i: int| 0 <= i < inner.len() && inner[i] == pid;
                assert(targets[i] == pid);
            } else {
                assert(targets[targets.len() - 1] == pid);
            }
        }
    }
}

/// No step of the plan sends a signal to the scanning process, whatever the
/// scan found, and every signal goes to a process that the scan found.
pub proof fn lemma_reaper_spares_itself(pids: Seq<i32>, current_pid: i32)
    ensures
        forall|i: int|
            0 <= i < reaper_plan(pids, current_pid).len() ==> match #[trigger] reaper_plan(
                pids,
                current_pid,
            )[i] {
                ReaperAction::Send { pid, signal } => pid != current_pid && pids.contains(pid),
                ReaperAction::Wait { millis } => true,
            },
{
    let targets = reap_targets(pids, current_pid);
    let plan = reaper_plan(pids, current_pid);
    assert forall|i: int| 0 <= i < plan.len() implies match #[trigger] plan[i] {
        ReaperAction::Send { pid, signal } => pid != current_pid && pids.contains(pid),
        ReaperAction::Wait { millis } => true,
    } by {
        if i < targets.len() {
            assert(targets.contains(targets[i]));
            lemma_reap_target(pids, current_pid, targets[i]);
        } else if i > targets.len() {
            assert(targets.contains(targets[i - targets.len() - 1]));
            lemma_reap_target(pids, current_pid, targets[i - targets.len() - 1]);
        }
    }
}

/// The steps that remove the processes `pids`, found by a scan, when the
/// scanning process is `current_pid`.
pub fn plan_reaping(pids: &Vec<i32>, current_pid: i32) -> (plan: Vec<ReaperAction>)
    ensures
        plan@ == reaper_plan(pids@, current_pid),
{
    let mut plan: Vec<ReaperAction> = Vec::new();
    if pids.len() == 0 {
        return plan;
    }
    let mut targets: Vec<i32> = Vec::new();
    let mut i: usize = 0;
    while i < pids.len()
        invariant
            i <= pids.len(),
            targets@ == reap_targets(pids@.take(i as int), current_pid),
            plan@ == signals_to(targets@, Signal::Terminate),
        decreases pids.len() - i,
    {
        assert(pids@.take(i + 1).drop_last() =~= pids@.take(i as int));
        let pid = pids[i];
        if pid != current_pid {
            targets.push(pid);
            plan.push(ReaperAction::Send { pid, signal: Signal::Terminate });
        }
        i += 1;
        assert(plan@ =~= signals_to(targets@, Signal::Terminate));
    }
    assert(pids@.take(i as int) =~= pids@);
    plan.push(ReaperAction::Wait { millis: REAP_GRACE_MS });
    let ghost head = plan@;
    let mut k: usize = 0;
    while k < targets.len()
        invariant
            k <= targets.len(),
            plan@ == head + signals_to(targets@.take(k as int), Signal::Kill),
        decreases targets.len() - k,
    {
        plan.push(ReaperAction::Send { pid: targets[k], signal: Signal::Kill });
        k += 1;
        assert(plan@ =~= head + signals_to(targets@.take(k as int), Signal::Kill));
    }
    assert(targets@.take(k as int) =~= targets@);
    plan
}

/// Plans the removal of workers that an earlier run left behind. `scan` is
/// the output of a scan of the process table for `STALE_PATTERN`, one process
/// id per line, or `None` where the scan failed or matched nothing;
/// `current_pid` is the scanning process, which the plan never signals.
pub fn cleanup_stale_sidecars(scan: Option<&[u8]>, current_pid: i32) -> (plan: Vec<ReaperAction>)
    ensures
        plan@ == match scan {
            Some(output) => reaper_plan(scanned_pids(output@), current_pid),
            None => Seq::<ReaperAction>::empty(),
        },
{
    match scan {
        Some(output) => {
            let pids = parse_pids(output);
            plan_reaping(&pids, current_pid)
        },
        None => Vec::new(),
    }
}

/// The number of open files that a process of this application should be
/// allowed.
pub const FILE_LIMIT_TARGET: u64 = 65536;

/// The soft limit to set, given the limits in force: none where the soft
/// limit reaches the target, else the target or the hard limit, whichever is
/// lower.
pub open spec fn raised_file_limit(soft: u64, hard: u64) -> Option<u64> {
    if soft < FILE_LIMIT_TARGET {
        if hard < FILE_LIMIT_TARGET {
            Some(hard)
        } else {
            Some(FILE_LIMIT_TARGET)
        }
    } else {
        None
    }
}

/// Decides whether the limit on open files is to be raised, and to what,
/// given the soft and the hard limit in force.
pub fn ensure_high_file_descriptor_limit(soft: u64, hard: u64) -> (new_soft: Option<u64>)
    ensures
        new_soft == raised_file_limit(soft, hard),
{
    if soft < FILE_LIMIT_TARGET {
        if hard < FILE_LIMIT_TARGET {
            Some(hard)
        } else {
            Some(FILE_LIMIT_TARGET)
        }
    } else {
        None
    }
}

/// A place where a file may lie, and whether a file is there.
#[derive(Debug, PartialEq, Eq)]
pub struct Candidate {
    pub path: String,
    pub exists: bool,
}

/// Whether the candidate at position `i` is the first at which a file is.
pub open spec fn is_first_found(candidates: Seq<Candidate>, i: int) -> bool {
    0 <= i < candidates.len() && candidates[i].exists && forall|j: int|
        0 <= j < i ==> !(#[trigger] candidates[j]).exists
}

/// Whether a file is at none of the candidates.
pub open spec fn none_found(candidates: Seq<Candidate>) -> bool {
    forall|j: int| 0 <= j < candidates.len() ==> !(#[trigger] candidates[j]).exists
}

/// The position of the first candidate at which a file is.
fn first_found(candidates: &Vec<Candidate>) -> (found: Option<usize>)
    ensures
        match found {
            Some(i) => is_first_found(candidates@, i as int),
            None => none_found(candidates@),
        },
{
    let mut i: usize = 0;
    while i < candidates.len()
        invariant
            i <= candidates.len(),
            forall|j: int| 0 <= j < i ==> !(#[trigger] candidates@[j]).exists,
        decreases candidates.len() - i,
    {
        if candidates[i].exists {
            return Some(i);
        }
        i += 1;
    }
    None
}

/// The worker runtime: the first of the places `candidates`, in the order of
/// preference, at which the runtime was found, or an error that says how to
/// get one.
pub fn find_bun_executable(candidates: &Vec<Candidate>) -> (runtime: Result<String, String>)
    ensures
        match runtime {
            Ok(path) => exists|i: int|
                is_first_found(candidates@, i) && path == (#[trigger] candidates@[i]).path,
            Err(message) => none_found(candidates@) && message@
                == "Bun executable not found. Please install bun: https://bun.sh"@,
        },
{
    match first_found(candidates) {
        Some(i) => Ok(candidates[i].path.clone()),
        None => Err(
            String::from_str("Bun executable not found. Please install bun: https://bun.sh"),
        ),
    }
}

/// The entry script of the worker: the first of the places `candidates`, in
/// the order of preference, at which a script was found, or an error.
pub fn find_server_script(candidates: &Vec<Candidate>) -> (script: Result<String, String>)
    ensures
        match script {
            Ok(path) => exists|i: int|
                is_first_found(candidates@, i) && path == (#[trigger] candidates@[i]).path,
            Err(message) => none_found(candidates@) && message@ == "Server script not found"@,
        },
{
    match first_found(candidates) {
        Some(i) => Ok(candidates[i].path.clone()),
        None => Err(String::from_str("Server script not found")),
    }
}

} // verus!
