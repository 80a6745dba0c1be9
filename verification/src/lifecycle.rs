//! Starting, stopping and reaping services: the decisions around the
//! process work that the caller performs.
//!
//! Spawning, signalling and waiting for processes happen outside this
//! library. Each operation here is one side of that work: it checks and
//! records the service's state before the work, or takes what the work
//! found and records it.

use vstd::prelude::*;

use crate::clock::{elapsed_ms, elapsed_spec};
use crate::deps::{
    dep_missing, dv, first_missing, greedy, has_start_order, lemma_stuck_order_excludes_full, stuck, views,
    DependencyError,
};
use crate::init::ArgonautInit;
use crate::namemap::{lookup, NameMap};
use crate::process::{ProcessTable, SpawnedProcess};
use crate::registry::crash_action_ok;
use crate::text::{concat3, idec, owned, push_i64};
use crate::types::{
    spawn_spec_of, CrashAction, ExitStatus, ManagedService, ProcessSpec, RunlevelSwitchPlan,
    SafeCommand, ServiceDefinition, ServiceState, ShutdownAction, ShutdownStepStatus,
};

verus! {

/// `after` is `before` once its process exited with `code`: no PID, and
/// stopped after a clean exit or failed with `exit code <code>`.
pub open spec fn exited_ok(before: ManagedService, after: ManagedService, code: i32) -> bool {
    &&& after.definition == before.definition
    &&& after.started_at == before.started_at
    &&& after.restart_count == before.restart_count
    &&& after.last_health_check == before.last_health_check
    &&& after.pid is None
    &&& if code == 0 {
        after.state is Stopped
    } else {
        after.state matches ServiceState::Failed(msg) && msg@ == "exit code "@ + idec(code as int)
    }
}

/// The exit code last reported for `q` among `exited[0..i]`.
pub open spec fn last_exit(exited: Seq<(String, i32)>, i: int, q: Seq<char>) -> Option<i32>
    decreases i,
{
    if i <= 0 {
        None
    } else if exited[i - 1].0@ == q {
        Some(exited[i - 1].1)
    } else {
        last_exit(exited, i - 1, q)
    }
}

/// `o` after the exits reported in `exited[0..i]`, relative to `start`.
pub open spec fn after_exits(start: Option<ManagedService>, now: Option<ManagedService>, exited: Seq<(String, i32)>, i: int, q: Seq<char>) -> bool {
    match last_exit(exited, i, q) {
        None => now == start,
        Some(c) => match start {
            None => now is None,
            Some(m) => now matches Some(n) && exited_ok(m, n, c),
        },
    }
}

/// The definitions of the services named in `names` that `init` has
/// registered, in the order of `names`.
pub open spec fn registered_defs(init: ArgonautInit, names: Seq<String>) -> Seq<ServiceDefinition>
    decreases names.len(),
{
    if names.len() == 0 {
        seq![]
    } else {
        let rest = registered_defs(init, names.drop_last());
        match init.svc(names.last()@) {
            Some(m) => rest.push(m.definition),
            None => rest,
        }
    }
}

/// Crash actions only read a service's definition and restart count.
proof fn lemma_crash_action_frame(a: CrashAction, m: ManagedService, n: ManagedService, status: ExitStatus)
    requires
        n.definition == m.definition,
        n.restart_count == m.restart_count,
    ensures
        crash_action_ok(a, Some(m), status) == crash_action_ok(a, Some(n), status),
{
}

impl ArgonautInit {
    /// Moves service `name` to starting and returns the specification to
    /// spawn it with. Fails, changing nothing, when the service is unknown,
    /// may not start from its state, or depends on a service that is not
    /// running.
    pub fn prepare_start(&mut self, name: &str) -> (r: Result<ProcessSpec, String>)
        ensures
            r is Ok == old(self).may_set_state(name@, ServiceState::Starting),
            match r {
                Ok(spec) => final(self).same_but(old(self), name@) && final(self).svc(name@) == Some(
                    ManagedService { state: ServiceState::Starting, ..old(self).svc(name@).unwrap() },
                ) && spawn_spec_of(spec, old(self).svc(name@).unwrap().definition),
                Err(msg) => *final(self) == *old(self) && msg@ == "cannot start service '"@ + name@
                    + "': invalid state transition or unmet dependencies"@,
            },
    {
        if !self.set_service_state(name, ServiceState::Starting) {
            return Err(
                concat3("cannot start service '", name, "': invalid state transition or unmet dependencies"),
            );
        }
        match self.services.get(name) {
            Some(svc) => Ok(ProcessSpec::from_service(&svc.definition)),
            None => Err(owned("")),
        }
    }

    /// Records that service `process.service_name` was spawned: tracks the
    /// process and marks the service running with its PID and start time.
    /// Returns the PID, and the process tracked before under that name, if
    /// any, which the caller should kill.
    pub fn record_started(&mut self, process: SpawnedProcess) -> (r: (u32, Option<SpawnedProcess>))
        ensures
            r.0 == process.pid,
            r.1 == old(self).processes.get_spec(process.service_name@),
            final(self).processes.get_spec(process.service_name@) == Some(process),
            forall|q: Seq<char>|
                q != process.service_name@ ==> #[trigger] final(self).processes.get_spec(q) == old(
                    self,
                ).processes.get_spec(q),
            final(self).config == old(self).config,
            final(self).boot_sequence == old(self).boot_sequence,
            final(self).boot_started == old(self).boot_started,
            final(self).boot_completed == old(self).boot_completed,
            forall|q: Seq<char>| q != process.service_name@ ==> #[trigger] final(self).svc(q) == old(self).svc(q),
            match old(self).svc(process.service_name@) {
                Some(m) => final(self).svc(process.service_name@) == Some(
                    ManagedService {
                        pid: Some(process.pid),
                        started_at: Some(process.started_at),
                        state: ServiceState::Running,
                        ..m
                    },
                ),
                None => final(self).svc(process.service_name@) is None,
            },
    {
        let pid = process.pid;
        let started = process.started_at;
        let name = process.service_name.clone();
        let replaced = self.processes.insert(process);
        match self.services.remove(name.as_str()) {
            Some(m) => {
                let updated = ManagedService {
                    pid: Some(pid),
                    started_at: Some(started),
                    state: ServiceState::Running,
                    ..m
                };
                self.services.insert(name, updated);
            },
            None => {},
        }
        (pid, replaced)
    }

    /// Records that spawning service `name` failed with `error`: the
    /// service is marked failed with that message.
    pub fn record_start_failed(&mut self, name: &str, error: String)
        ensures
            match old(self).svc(name@) {
                Some(m) => final(self).same_but(old(self), name@) && final(self).svc(name@) == Some(
                    ManagedService { state: ServiceState::Failed(error), ..m },
                ),
                None => final(self).same_but(old(self), name@) && final(self).svc(name@) is None,
            },
    {
        match self.services.remove(name) {
            Some(m) => {
                let updated = ManagedService { state: ServiceState::Failed(error), ..m };
                self.services.insert(owned(name), updated);
            },
            None => {},
        }
    }

    /// Moves service `name` to stopping and hands back its tracked process,
    /// which the caller stops. Fails, changing nothing, when the service is
    /// unknown or may not stop from its state.
    pub fn prepare_stop(&mut self, name: &str) -> (r: Result<Option<SpawnedProcess>, String>)
        ensures
            r is Ok == old(self).may_set_state(name@, ServiceState::Stopping),
            match r {
                Ok(p) => p == old(self).processes.get_spec(name@) && final(self).svc(name@) == Some(
                    ManagedService { state: ServiceState::Stopping, ..old(self).svc(name@).unwrap() },
                ) && final(self).processes.get_spec(name@) is None && (forall|q: Seq<char>|
                    q != name@ ==> #[trigger] final(self).processes.get_spec(q) == old(
                        self,
                    ).processes.get_spec(q)) && (forall|q: Seq<char>|
                    q != name@ ==> #[trigger] final(self).svc(q) == old(self).svc(q))
                    && final(self).config == old(self).config,
                Err(msg) => *final(self) == *old(self) && msg@ == "cannot stop service '"@ + name@
                    + "': not running or unknown"@,
            },
    {
        if !self.set_service_state(name, ServiceState::Stopping) {
            return Err(concat3("cannot stop service '", name, "': not running or unknown"));
        }
        let ghost mid = *self;
        let p = self.processes.remove(name);
        assert(self.services == mid.services);
        assert forall|q: Seq<char>| q != name@ implies #[trigger] self.svc(q) == old(self).svc(q) by {
            assert(mid.svc(q) == old(self).svc(q));
        }
        Ok(p)
    }

    /// Records that service `name` has stopped: no PID, state stopped, and
    /// its process no longer tracked.
    pub fn record_stopped(&mut self, name: &str)
        ensures
            final(self).processes.get_spec(name@) is None,
            forall|q: Seq<char>|
                q != name@ ==> #[trigger] final(self).processes.get_spec(q) == old(self).processes.get_spec(q),
            forall|q: Seq<char>| q != name@ ==> #[trigger] final(self).svc(q) == old(self).svc(q),
            final(self).config == old(self).config,
            match old(self).svc(name@) {
                Some(m) => final(self).svc(name@) == Some(
                    ManagedService { pid: None, state: ServiceState::Stopped, ..m },
                ),
                None => final(self).svc(name@) is None,
            },
    {
        self.processes.remove(name);
        match self.services.remove(name) {
            Some(m) => {
                let updated = ManagedService { pid: None, state: ServiceState::Stopped, ..m };
                self.services.insert(owned(name), updated);
            },
            None => {},
        }
    }

    /// Whether restarting service `name` stops it first: it is running or
    /// starting.
    pub fn restart_needs_stop(&self, name: &str) -> (b: bool)
        ensures
            b == (self.svc(name@) matches Some(m) && (m.state is Running || m.state is Starting)),
    {
        match self.services.get(name) {
            Some(m) => m.state.is_active(),
            None => false,
        }
    }

    /// Counts one more restart of service `name`. The counter must not be
    /// at its maximum.
    pub fn count_restart(&mut self, name: &str)
        requires
            old(self).svc(name@) matches Some(m) ==> m.restart_count < u32::MAX,
        ensures
            match old(self).svc(name@) {
                Some(m) => final(self).same_but(old(self), name@) && final(self).svc(name@) == Some(
                    ManagedService { restart_count: (m.restart_count + 1) as u32, ..m },
                ),
                None => final(self).same_but(old(self), name@) && final(self).svc(name@) is None,
            },
    {
        match self.services.remove(name) {
            Some(m) => {
                let c = m.restart_count + 1;
                let updated = ManagedService { restart_count: c, ..m };
                self.services.insert(owned(name), updated);
            },
            None => {},
        }
    }

    /// Records the processes that exited, given as service names with exit
    /// codes: each is no longer tracked, and its service loses its PID and
    /// becomes stopped after a clean exit or failed with `exit code <code>`
    /// otherwise. Returns each with the action its crash calls for.
    pub fn reap_services(&mut self, exited: Vec<(String, i32)>) -> (r: Vec<(String, i32, CrashAction)>)
        ensures
            r@.len() == exited@.len(),
            forall|k: int|
                0 <= k < r@.len() ==> (#[trigger] r@[k]).0 == exited@[k].0 && r@[k].1 == exited@[k].1
                    && crash_action_ok(r@[k].2, old(self).svc(exited@[k].0@), ExitStatus::Code(exited@[k].1)),
            forall|q: Seq<char>|
                after_exits(
                    old(self).svc(q),
                    #[trigger] final(self).svc(q),
                    exited@,
                    exited@.len() as int,
                    q,
                ),
            forall|q: Seq<char>|
                #[trigger] final(self).processes.get_spec(q) == if last_exit(
                    exited@,
                    exited@.len() as int,
                    q,
                ) is Some {
                    None
                } else {
                    old(self).processes.get_spec(q)
                },
            final(self).config == old(self).config,
            final(self).boot_sequence == old(self).boot_sequence,
    {
        let ghost start = *self;
        let n = exited.len();
        let mut r: Vec<(String, i32, CrashAction)> = Vec::new();
        let mut i: usize = 0;
        while i < n
            invariant
                n == exited@.len(),
                i <= n,
                r@.len() == i,
                self.config == start.config,
                self.boot_sequence == start.boot_sequence,
                forall|k: int|
                    0 <= k < i ==> (#[trigger] r@[k]).0 == exited@[k].0 && r@[k].1 == exited@[k].1
                        && crash_action_ok(r@[k].2, start.svc(exited@[k].0@), ExitStatus::Code(exited@[k].1)),
                forall|q: Seq<char>| after_exits(start.svc(q), #[trigger] self.svc(q), exited@, i as int, q),
                forall|q: Seq<char>|
                    #[trigger] self.processes.get_spec(q) == if last_exit(exited@, i as int, q) is Some {
                        None
                    } else {
                        start.processes.get_spec(q)
                    },
            decreases n - i,
        {
            let name = &exited[i].0;
            let code = exited[i].1;
            let ghost before = *self;
            self.processes.remove(name.as_str());
            assert(self.services == before.services);
            match self.services.remove(name.as_str()) {
                Some(m) => {
                    let state = if code == 0 {
                        ServiceState::Stopped
                    } else {
                        let mut msg = owned("exit code ");
                        push_i64(&mut msg, code as i64);
                        ServiceState::Failed(msg)
                    };
                    let updated = ManagedService { pid: None, state, ..m };
                    self.services.insert(name.clone(), updated);
                    proof {
                        assert(before.svc(name@) == Some(m));
                        assert(start.svc(name@) is Some);
                        let m0 = start.svc(name@).unwrap();
                        assert(m.definition == m0.definition);
                        assert(m.restart_count == m0.restart_count);
                        assert(exited_ok(m0, updated, code));
                    }
                },
                None => {
                    proof {
                        assert(before.svc(name@) is None);
                        assert(start.svc(name@) is None);
                    }
                },
            }
            let action = self.on_service_crash(name.as_str(), &ExitStatus::Code(code));
            proof {
                match start.svc(name@) {
                    Some(m0) => {
                        let cur = self.svc(name@).unwrap();
                        lemma_crash_action_frame(action, m0, cur, ExitStatus::Code(code));
                    },
                    None => {},
                }
                assert forall|q: Seq<char>| after_exits(start.svc(q), #[trigger] self.svc(q), exited@, i + 1, q) by {
                    if q != name@ {
                        assert(last_exit(exited@, i + 1, q) == last_exit(exited@, i as int, q));
                        assert(self.svc(q) == before.svc(q));
                    }
                }
                assert forall|q: Seq<char>|
                    #[trigger] self.processes.get_spec(q) == if last_exit(exited@, i + 1, q) is Some {
                        None
                    } else {
                        start.processes.get_spec(q)
                    } by {
                    if q != name@ {
                        assert(last_exit(exited@, i + 1, q) == last_exit(exited@, i as int, q));
                        assert(self.processes.get_spec(q) == before.processes.get_spec(q));
                    }
                }
            }
            r.push((name.clone(), code, action));
            i += 1;
        }
        r
    }
}

} // verus!

verus! {

/// Service `m`, up for `uptime` ms, is past its watchdog: starting for
/// longer than its ready check allows, or running with no passed health
/// check for longer than `interval * retries + timeout`.
pub open spec fn timed_out(m: ManagedService, uptime: u64) -> bool {
    ||| m.state is Starting && (m.definition.ready_check matches Some(rc) && uptime > rc.timeout_ms)
    ||| m.state is Running && m.last_health_check is None && (m.definition.health_check matches Some(
        hc,
    ) && uptime as int > hc.interval_ms * hc.retries + hc.timeout_ms)
}

/// The names of the tracked processes of `entries` whose services are past
/// their watchdog at time `now`, in order.
pub open spec fn watchdog_list(init: ArgonautInit, entries: Seq<(String, SpawnedProcess)>, now: i64) -> Seq<Seq<char>>
    decreases entries.len(),
{
    if entries.len() == 0 {
        Seq::empty()
    } else {
        let p = watchdog_list(init, entries.drop_last(), now);
        let e = entries.last();
        if init.svc(e.0@) matches Some(m) && timed_out(m, elapsed_spec(e.1.started_at, now)) {
            p.push(e.0@)
        } else {
            p
        }
    }
}

/// The watchdog flags only a service that is starting past its readiness
/// timeout, or running with no health check ever passed past its health
/// window: a running service whose health check has passed, a stopped,
/// stopping or failed one, and one with no check configured for its
/// state, are never flagged.
pub proof fn lemma_watchdog_flags_only_silent(init: ArgonautInit, entries: Seq<(String, SpawnedProcess)>, now: i64)
    ensures
        forall|k: int|
            0 <= k < watchdog_list(init, entries, now).len() ==> (init.svc(
                #[trigger] watchdog_list(init, entries, now)[k],
            ) matches Some(m) && ((m.state is Starting && m.definition.ready_check is Some) || (m.state is Running
                && m.last_health_check is None && m.definition.health_check is Some))),
    decreases entries.len(),
{
    if entries.len() > 0 {
        lemma_watchdog_flags_only_silent(init, entries.drop_last(), now);
    }
}

/// The watchdog flags every tracked service that is starting for longer
/// than its readiness timeout, and every one running, with no health
/// check passed yet, for longer than its health checks' interval times
/// retries plus timeout.
pub proof fn lemma_watchdog_flags_every_late(init: ArgonautInit, entries: Seq<(String, SpawnedProcess)>, now: i64)
    ensures
        forall|k: int|
            0 <= k < entries.len() && (init.svc((#[trigger] entries[k]).0@) matches Some(m) && ({
                let up = elapsed_spec(entries[k].1.started_at, now);
                ||| m.state is Starting && (m.definition.ready_check matches Some(rc) && up > rc.timeout_ms)
                ||| m.state is Running && m.last_health_check is None && (m.definition.health_check matches Some(
                    hc,
                ) && up > hc.interval_ms * hc.retries + hc.timeout_ms)
            })) ==> watchdog_list(init, entries, now).contains(entries[k].0@),
    decreases entries.len(),
{
    if entries.len() > 0 {
        let p = entries.drop_last();
        lemma_watchdog_flags_every_late(init, p, now);
        assert forall|k: int|
            0 <= k < entries.len() && (init.svc((#[trigger] entries[k]).0@) matches Some(m) && ({
                let up = elapsed_spec(entries[k].1.started_at, now);
                ||| m.state is Starting && (m.definition.ready_check matches Some(rc) && up > rc.timeout_ms)
                ||| m.state is Running && m.last_health_check is None && (m.definition.health_check matches Some(
                    hc,
                ) && up > hc.interval_ms * hc.retries + hc.timeout_ms)
            })) implies watchdog_list(init, entries, now).contains(entries[k].0@) by {
            let w = watchdog_list(init, p, now);
            if k < p.len() {
                assert(entries[k] == p[k]);
                assert(w.contains(p[k].0@));
                let j = choose|j: int| 0 <= j < w.len() && w[j] == p[k].0@;
                if init.svc(entries.last().0@) matches Some(m) && timed_out(
                    m,
                    elapsed_spec(entries.last().1.started_at, now),
                ) {
                    assert(w.push(entries.last().0@)[j] == w[j]);
                }
            } else {
                assert(entries[k] == entries.last());
                assert(w.push(entries.last().0@).last() == entries.last().0@);
            }
        }
    }
}

impl ArgonautInit {
    /// The services whose tracked process is past its watchdog at time
    /// `now`, in name order.
    pub fn check_watchdog_at(&self, now: i64) -> (v: Vec<String>)
        ensures
            crate::deps::views(v@) == watchdog_list(*self, self.processes.entries(), now),
            forall|k: int|
                0 <= k < v@.len() ==> (self.svc((#[trigger] v@[k])@) matches Some(m) && ((m.state is Starting
                    && m.definition.ready_check is Some) || (m.state is Running && m.last_health_check is None
                    && m.definition.health_check is Some))),
            forall|k: int|
                0 <= k < self.processes.entries().len() && (self.svc(
                    (#[trigger] self.processes.entries()[k]).0@,
                ) matches Some(m) && ({
                    let up = elapsed_spec(self.processes.entries()[k].1.started_at, now);
                    ||| m.state is Starting && (m.definition.ready_check matches Some(rc) && up > rc.timeout_ms)
                    ||| m.state is Running && m.last_health_check is None && (m.definition.health_check matches Some(
                        hc,
                    ) && up > hc.interval_ms * hc.retries + hc.timeout_ms)
                })) ==> crate::deps::views(v@).contains(self.processes.entries()[k].0@),
    {
        let n = self.processes.len();
        let mut v: Vec<String> = Vec::new();
        let mut i: usize = 0;
        while i < n
            invariant
                n == self.processes.entries().len(),
                i <= n,
                crate::deps::views(v@) == watchdog_list(*self, self.processes.entries().take(i as int), now),
            decreases n - i,
        {
            let (name, proc) = self.processes.entry(i);
            let ghost t = self.processes.entries().take(i + 1);
            proof {
                assert(t.drop_last() =~= self.processes.entries().take(i as int));
                assert(t.last() == self.processes.entries()[i as int]);
            }
            let hit = match self.services.get(name.as_str()) {
                None => false,
                Some(svc) => {
                    let uptime = elapsed_ms(proc.started_at, now);
                    let starting_late = match &svc.definition.ready_check {
                        Some(rc) => matches!(svc.state, ServiceState::Starting) && uptime > rc.timeout_ms,
                        None => false,
                    };
                    let running_silent = match &svc.definition.health_check {
                        Some(hc) => {
                            let a = hc.interval_ms as u128;
                            let b = hc.retries as u128;
                            assert(a * b <= 0xffff_ffff_ffff_ffffu128 * 0xffff_ffffu128) by (nonlinear_arith)
                                requires
                                    a <= 0xffff_ffff_ffff_ffffu128,
                                    b <= 0xffff_ffffu128,
                            ;
                            let window: u128 = a * b + (hc.timeout_ms as u128);
                            matches!(svc.state, ServiceState::Running) && svc.last_health_check.is_none()
                                && (uptime as u128) > window
                        },
                        None => false,
                    };
                    starting_late || running_silent
                },
            };
            if hit {
                let ghost before = v@;
                v.push(name.clone());
                assert(crate::deps::views(v@) =~= crate::deps::views(before).push(name@));
            }
            i += 1;
        }
        assert(self.processes.entries().take(n as int) =~= self.processes.entries());
        proof {
            lemma_watchdog_flags_only_silent(*self, self.processes.entries(), now);
            lemma_watchdog_flags_every_late(*self, self.processes.entries(), now);
            let w = watchdog_list(*self, self.processes.entries(), now);
            assert forall|k: int| 0 <= k < v@.len() implies (self.svc((#[trigger] v@[k])@) matches Some(m) && ((
            m.state is Starting && m.definition.ready_check is Some) || (m.state is Running
                && m.last_health_check is None && m.definition.health_check is Some))) by {
                assert(crate::deps::views(v@)[k] == v@[k]@);
                assert(w[k] == v@[k]@);
            }
        }
        v
    }

    /// The services whose tracked process is past its watchdog now.
    pub fn check_watchdog(&self) -> (v: Vec<String>)
        ensures
            exists|now: i64| crate::deps::views(v@) == watchdog_list(*self, self.processes.entries(), now),
    {
        let now = crate::clock::now_ms();
        self.check_watchdog_at(now)
    }

    /// Records that the services `names` were killed by the watchdog: each
    /// is no longer tracked, and loses its PID and is failed with `watchdog
    /// timeout`. Returns their tracked processes, which the caller kills.
    pub fn enforce_watchdog(&mut self, names: &Vec<String>) -> (killed: Vec<SpawnedProcess>)
        ensures
            final(self).config == old(self).config,
            forall|q: Seq<char>|
                !crate::deps::views(names@).contains(q) ==> #[trigger] final(self).svc(q) == old(self).svc(q),
            forall|q: Seq<char>|
                !crate::deps::views(names@).contains(q) ==> #[trigger] final(self).processes.get_spec(q)
                    == old(self).processes.get_spec(q),
            forall|q: Seq<char>|
                crate::deps::views(names@).contains(q) ==> #[trigger] final(self).processes.get_spec(q) is None,
            forall|q: Seq<char>|
                crate::deps::views(names@).contains(q) ==> match old(self).svc(q) {
                    Some(m) => #[trigger] final(self).svc(q) matches Some(x) && x.definition == m.definition
                        && x.restart_count == m.restart_count && x.pid is None && (x.state matches ServiceState::Failed(msg)
                        && msg@ == "watchdog timeout"@),
                    None => final(self).svc(q) is None,
                },
    {
        let ghost start = *self;
        let n = names.len();
        let mut killed: Vec<SpawnedProcess> = Vec::new();
        let mut i: usize = 0;
        while i < n
            invariant
                n == names@.len(),
                i <= n,
                self.config == start.config,
                forall|q: Seq<char>|
                    !crate::deps::views(names@).take(i as int).contains(q) ==> #[trigger] self.svc(q) == start.svc(q),
                forall|q: Seq<char>|
                    !crate::deps::views(names@).take(i as int).contains(q) ==> #[trigger] self.processes.get_spec(q)
                        == start.processes.get_spec(q),
                forall|q: Seq<char>|
                    crate::deps::views(names@).take(i as int).contains(q) ==> #[trigger] self.processes.get_spec(q) is None,
                forall|q: Seq<char>|
                    crate::deps::views(names@).take(i as int).contains(q) ==> match start.svc(q) {
                        Some(m) => #[trigger] self.svc(q) matches Some(x) && x.definition == m.definition
                            && x.restart_count == m.restart_count && x.pid is None && (x.state matches ServiceState::Failed(msg)
                            && msg@ == "watchdog timeout"@),
                        None => self.svc(q) is None,
                    },
            decreases n - i,
        {
            let name = &names[i];
            let ghost before = *self;
            let ghost done = crate::deps::views(names@).take(i as int);
            let ghost done2 = crate::deps::views(names@).take(i + 1);
            assert(done2 =~= done.push(name@));
            match self.processes.remove(name.as_str()) {
                Some(p) => {
                    killed.push(p);
                },
                None => {},
            }
            assert(self.services == before.services);
            let ghost mid = *self;
            match self.services.remove(name.as_str()) {
                Some(m) => {
                    let updated = ManagedService {
                        pid: None,
                        state: ServiceState::Failed(owned("watchdog timeout")),
                        ..m
                    };
                    self.services.insert(name.clone(), updated);
                },
                None => {},
            }
            proof {
                assert(self.processes == mid.processes);
                assert forall|q: Seq<char>| !done2.contains(q) implies #[trigger] self.svc(q) == start.svc(q) by {
                    if done.contains(q) {
                        let k = choose|k: int| 0 <= k < done.len() && done[k] == q;
                        assert(done2[k] == q);
                    }
                    assert(done2[done.len() as int] == name@);
                    assert(!done.contains(q));
                    assert(q != name@);
                    assert(self.svc(q) == before.svc(q));
                }
                assert forall|q: Seq<char>| !done2.contains(q) implies #[trigger] self.processes.get_spec(q)
                    == start.processes.get_spec(q) by {
                    if done.contains(q) {
                        let k = choose|k: int| 0 <= k < done.len() && done[k] == q;
                        assert(done2[k] == q);
                    }
                    assert(done2[done.len() as int] == name@);
                    assert(!done.contains(q));
                    assert(q != name@);
                    assert(mid.processes.get_spec(q) == before.processes.get_spec(q));
                }
                assert forall|q: Seq<char>| done2.contains(q) implies #[trigger] self.processes.get_spec(q) is None by {
                    if q != name@ {
                        assert(done.contains(q));
                        assert(mid.processes.get_spec(q) == before.processes.get_spec(q));
                    }
                }
                assert forall|q: Seq<char>| done2.contains(q) implies match start.svc(q) {
                    Some(m) => #[trigger] self.svc(q) matches Some(x) && x.definition == m.definition
                        && x.restart_count == m.restart_count && x.pid is None && (x.state matches ServiceState::Failed(msg)
                        && msg@ == "watchdog timeout"@),
                    None => self.svc(q) is None,
                } by {
                    if q != name@ {
                        assert(done.contains(q));
                        assert(self.svc(q) == before.svc(q));
                    } else if !done.contains(q) {
                        assert(before.svc(q) == start.svc(q));
                    }
                }
            }
            i += 1;
        }
        assert(crate::deps::views(names@).take(n as int) =~= crate::deps::views(names@));
        killed
    }
}

} // verus!

verus! {

/// The process work a shutdown step calls for.
#[derive(Debug, PartialEq, Eq)]
pub enum ShutdownWork {
    /// Nothing to run: the step completes.
    Nothing,
    /// Stop the service gracefully (SIGTERM, wait, then SIGKILL).
    StopService { name: String },
    /// Kill the service at once.
    KillService { name: String },
    /// Run a command; when `fatal`, a failure fails the step.
    RunCommand { command: SafeCommand, fatal: bool },
}

/// The work for a shutdown action: stop or kill a service (a stop with
/// signal 9 kills), run `sync` (failure fails the step) or `swapoff -a`
/// (failure is tolerated), and nothing for the other actions.
pub fn shutdown_work(action: &ShutdownAction) -> (w: ShutdownWork)
    ensures
        match *action {
            ShutdownAction::StopService { name, signal } => if signal == 9 {
                w matches ShutdownWork::KillService { name: n } && n@ == name@
            } else {
                w matches ShutdownWork::StopService { name: n } && n@ == name@
            },
            ShutdownAction::ForceKillService { name } => w matches ShutdownWork::KillService { name: n }
                && n@ == name@,
            ShutdownAction::SyncFilesystems => w matches ShutdownWork::RunCommand { command, fatal } && fatal
                && command.binary@ == "sync"@ && command.args@.len() == 0,
            ShutdownAction::SwapOff => w matches ShutdownWork::RunCommand { command, fatal } && !fatal
                && command.binary@ == "swapoff"@ && command.args@.len() == 1 && command.args@[0]@
                == "-a"@,
            _ => w == ShutdownWork::Nothing,
        },
{
    match action {
        ShutdownAction::StopService { name, signal } => {
            if *signal == 9 {
                ShutdownWork::KillService { name: name.clone() }
            } else {
                ShutdownWork::StopService { name: name.clone() }
            }
        },
        ShutdownAction::ForceKillService { name } => ShutdownWork::KillService { name: name.clone() },
        ShutdownAction::SyncFilesystems => ShutdownWork::RunCommand {
            command: SafeCommand { binary: owned("sync"), args: Vec::new() },
            fatal: true,
        },
        ShutdownAction::SwapOff => {
            let mut args: Vec<String> = Vec::new();
            args.push(owned("-a"));
            ShutdownWork::RunCommand { command: SafeCommand { binary: owned("swapoff"), args }, fatal: false }
        },
        _ => ShutdownWork::Nothing,
    }
}

/// The status of a command step from the command's outcome: a tolerated
/// command always completes; otherwise exit code 0 completes, another code
/// fails with `<binary> exited with code <code>`, and an error to run fails
/// with its message.
pub fn command_step_status(command: &SafeCommand, fatal: bool, outcome: Result<i32, String>) -> (s: ShutdownStepStatus)
    ensures
        !fatal ==> s == ShutdownStepStatus::Complete,
        fatal ==> match outcome {
            Ok(code) => if code == 0 {
                s == ShutdownStepStatus::Complete
            } else {
                s matches ShutdownStepStatus::Failed(m) && m@ == command.binary@ + " exited with code "@
                    + idec(code as int)
            },
            Err(e) => s == ShutdownStepStatus::Failed(e),
        },
{
    if !fatal {
        return ShutdownStepStatus::Complete;
    }
    match outcome {
        Ok(code) => {
            if code == 0 {
                ShutdownStepStatus::Complete
            } else {
                let mut m = command.binary.clone();
                crate::text::push_str(&mut m, " exited with code ");
                push_i64(&mut m, code as i64);
                ShutdownStepStatus::Failed(m)
            }
        },
        Err(e) => ShutdownStepStatus::Failed(e),
    }
}

impl ArgonautInit {
    /// Records that every service process was stopped during shutdown:
    /// the services named in `results` lose their PIDs and become stopped,
    /// and no process is tracked any more.
    pub fn record_all_stopped(&mut self, results: &Vec<(String, i32)>)
        ensures
            final(self).config == old(self).config,
            final(self).processes.entries().len() == 0,
            forall|q: Seq<char>|
                !(exists|k: int| 0 <= k < results@.len() && #[trigger] results@[k].0@ == q)
                    ==> #[trigger] final(self).svc(q) == old(self).svc(q),
    {
        let n = results.len();
        let mut i: usize = 0;
        let ghost start = *self;
        while i < n
            invariant
                n == results@.len(),
                i <= n,
                self.config == start.config,
                forall|q: Seq<char>|
                    !(exists|k: int| 0 <= k < i && #[trigger] results@[k].0@ == q) ==> #[trigger] self.svc(q)
                        == start.svc(q),
            decreases n - i,
        {
            let name = &results[i].0;
            let ghost before = *self;
            match self.services.remove(name.as_str()) {
                Some(m) => {
                    let updated = ManagedService { pid: None, state: ServiceState::Stopped, ..m };
                    self.services.insert(name.clone(), updated);
                },
                None => {},
            }
            assert forall|q: Seq<char>|
                !(exists|k: int| 0 <= k < i + 1 && #[trigger] results@[k].0@ == q) implies #[trigger] self.svc(q)
                    == start.svc(q) by {
                assert(results@[i as int].0@ != q);
                assert(self.svc(q) == before.svc(q));
            }
            i += 1;
        }
        let ghost before_clear = *self;
        self.processes.clear();
        assert(self.services == before_clear.services);
        assert forall|q: Seq<char>|
            !(exists|k: int| 0 <= k < results@.len() && #[trigger] results@[k].0@ == q) implies #[trigger] self.svc(q)
                == start.svc(q) by {
            assert(before_clear.svc(q) == start.svc(q));
        }
    }

    /// The order in which to start the services of a runlevel switch: the
    /// start order of those of them that are registered, or the plan's own
    /// order when they have none.
    pub fn switch_start_order(&self, plan: &RunlevelSwitchPlan) -> (order: Vec<String>)
        ensures
            ({
                let regs = registered_defs(*self, plan.services_to_start@);
                &&& has_start_order(regs) ==> greedy(regs, views(order@)) && order@.len() == regs.len()
                &&& !has_start_order(regs) ==> order@ == plan.services_to_start@
            }),
    {
        let n = plan.services_to_start.len();
        let mut defs: Vec<&ServiceDefinition> = Vec::new();
        let mut i: usize = 0;
        while i < n
            invariant
                n == plan.services_to_start@.len(),
                i <= n,
                dv(defs@) == registered_defs(*self, plan.services_to_start@.take(i as int)),
            decreases n - i,
        {
            let ghost before = dv(defs@);
            assert(plan.services_to_start@.take(i + 1).drop_last() =~= plan.services_to_start@.take(i as int));
            match self.services.get(plan.services_to_start[i].as_str()) {
                Some(m) => {
                    defs.push(&m.definition);
                    assert(dv(defs@) =~= before.push(m.definition));
                },
                None => {},
            }
            i += 1;
        }
        assert(plan.services_to_start@.take(n as int) =~= plan.services_to_start@);
        let ghost regs = dv(defs@);
        assert(regs == registered_defs(*self, plan.services_to_start@));
        let slice = defs.as_slice();
        assert(slice@ == defs@);
        match Self::resolve_service_order(slice) {
            Ok(order) => {
                assert(greedy(regs, views(order@)));
                assert(views(order@).len() == regs.len());
                assert(has_start_order(regs));
                order
            },
            Err(e) => {
                proof {
                    match e {
                        DependencyError::Missing { service, dependency } => {
                            let (a, b) = choose|a: int, b: int|
                                first_missing(regs, a, b) && service@ == regs[a].name@ && dependency@
                                    == regs[a].depends_on@[b]@;
                            assert(dep_missing(regs, a, b));
                        },
                        DependencyError::Cycle { resolved, total } => {
                            let p = choose|p: Seq<Seq<char>>|
                                greedy(regs, p) && stuck(regs, p) && p.len() == resolved;
                            if has_start_order(regs) {
                                let q = choose|q: Seq<Seq<char>>| greedy(regs, q) && q.len() == regs.len();
                                lemma_stuck_order_excludes_full(regs, p, q);
                            }
                        },
                    }
                }
                assert(!has_start_order(regs));
                let copy = plan.services_to_start.clone();
                assert(copy@ =~= plan.services_to_start@);
                copy
            },
        }
    }

    /// The specification to spawn the emergency shell with: the configured
    /// shell and environment, working in `/`, with no log files.
    pub fn emergency_shell_spec(&self) -> (p: ProcessSpec)
        ensures
            p.binary@ == "/usr/bin/agnoshi"@,
            p.args@.len() == 0,
            p.working_dir matches Some(d) && d@ == "/"@,
            p.stdout_log is None,
            p.stderr_log is None,
            p.uid is None,
            p.gid is None,
    {
        let cfg = self.emergency_shell_config();
        ProcessSpec {
            binary: cfg.shell_path,
            args: Vec::new(),
            environment: cfg.environment,
            working_dir: Some(owned("/")),
            stdout_log: None,
            stderr_log: None,
            uid: None,
            gid: None,
            resource_limits: None,
            log_config: None,
        }
    }
}

} // verus!
