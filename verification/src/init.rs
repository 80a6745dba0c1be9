//! The init-system orchestrator: boot progress and the registry of
//! managed services.

use vstd::prelude::*;

use crate::clock::now_ms;
use crate::namemap::{has_key, key_index, lookup, sorted_keys, NameMap};
use crate::process::ProcessTable;
use crate::types::{
    same_def, ArgonautConfig, ArgonautStats, BootMode, BootStage, BootStep, BootStepStatus,
    ManagedService, ServiceDefinition, ServiceState,
};

verus! {

/// The main init-system orchestrator. Holds the boot sequence, all managed
/// services, and the process table for running processes.
#[derive(Debug)]
pub struct ArgonautInit {
    pub config: ArgonautConfig,
    pub boot_sequence: Vec<BootStep>,
    /// Managed services by name.
    pub services: NameMap<ManagedService>,
    /// When boot started (ms since the epoch).
    pub boot_started: Option<i64>,
    /// When boot completed (ms since the epoch).
    pub boot_completed: Option<i64>,
    /// Tracks all running service processes.
    pub processes: ProcessTable,
}

/// A service that has just been registered: stopped, never started.
pub open spec fn fresh(m: ManagedService) -> bool {
    &&& m.state is Stopped
    &&& m.pid is None
    &&& m.started_at is None
    &&& m.restart_count == 0
    &&& m.last_health_check is None
}

/// A managed service for `definition`, stopped and never started.
pub fn fresh_service(definition: ServiceDefinition) -> (m: ManagedService)
    ensures
        m.definition == definition,
        fresh(m),
{
    ManagedService {
        definition,
        state: ServiceState::Stopped,
        pid: None,
        started_at: None,
        restart_count: 0,
        last_health_check: None,
    }
}

/// Some step of `steps` is for `stage`.
pub open spec fn has_stage(steps: Seq<BootStep>, stage: BootStage) -> bool {
    exists|i: int| 0 <= i < steps.len() && #[trigger] steps[i].stage == stage
}

/// `i` is the first step of `steps` for `stage`.
pub open spec fn first_stage(steps: Seq<BootStep>, stage: BootStage, i: int) -> bool {
    &&& 0 <= i < steps.len()
    &&& steps[i].stage == stage
    &&& forall|j: int| 0 <= j < i ==> #[trigger] steps[j].stage != stage
}

/// `s` after completing at time `now`.
pub open spec fn completed_step(s: BootStep, now: i64) -> BootStep {
    BootStep {
        status: BootStepStatus::Complete,
        started_at: if s.started_at is None {
            Some(now)
        } else {
            s.started_at
        },
        completed_at: Some(now),
        ..s
    }
}

/// `s` after failing with `error` at time `now`.
pub open spec fn failed_step(s: BootStep, error: String, now: i64) -> BootStep {
    BootStep {
        status: BootStepStatus::Failed,
        started_at: if s.started_at is None {
            Some(now)
        } else {
            s.started_at
        },
        completed_at: Some(now),
        error: Some(error),
        ..s
    }
}

/// A step that is still to run: not complete, failed, or skipped.
pub open spec fn step_open(s: BootStep) -> bool {
    s.status != BootStepStatus::Complete && s.status != BootStepStatus::Failed && s.status
        != BootStepStatus::Skipped
}

/// A step that does not hold boot back: complete, skipped, or an optional
/// step that failed.
pub open spec fn step_done(s: BootStep) -> bool {
    s.status == BootStepStatus::Complete || s.status == BootStepStatus::Skipped || (!s.required
        && s.status == BootStepStatus::Failed)
}

/// Boot duration from start and end times, clamped at 0.
pub open spec fn duration_spec(start: Option<i64>, end: Option<i64>) -> Option<u64> {
    match (start, end) {
        (Some(s), Some(e)) => Some(if e <= s {
            0u64
        } else {
            (e - s) as u64
        }),
        _ => None,
    }
}

/// The failed steps of `steps`, in order.
pub open spec fn failed_of(steps: Seq<BootStep>) -> Seq<BootStep>
    decreases steps.len(),
{
    if steps.len() == 0 {
        Seq::empty()
    } else {
        let p = failed_of(steps.drop_last());
        if steps.last().status == BootStepStatus::Failed {
            p.push(steps.last())
        } else {
            p
        }
    }
}

/// Services in `s[0..n]` in the running state.
pub open spec fn count_running(s: Seq<(String, ManagedService)>, n: int) -> nat
    decreases n,
{
    if n <= 0 {
        0
    } else {
        count_running(s, n - 1) + if s[n - 1].1.state is Running {
            1nat
        } else {
            0nat
        }
    }
}

/// Services in `s[0..n]` in the failed state.
pub open spec fn count_failed_services(s: Seq<(String, ManagedService)>, n: int) -> nat
    decreases n,
{
    if n <= 0 {
        0
    } else {
        count_failed_services(s, n - 1) + if s[n - 1].1.state is Failed {
            1nat
        } else {
            0nat
        }
    }
}

/// Sum of the restart counters of `s[0..n]`.
pub open spec fn sum_restarts(s: Seq<(String, ManagedService)>, n: int) -> nat
    decreases n,
{
    if n <= 0 {
        0
    } else {
        sum_restarts(s, n - 1) + s[n - 1].1.restart_count as nat
    }
}

/// Adding a term to the sum never lowers it.
pub proof fn lemma_sum_restarts_mono(s: Seq<(String, ManagedService)>, i: int, n: int)
    requires
        0 <= i <= n <= s.len(),
    ensures
        sum_restarts(s, i) <= sum_restarts(s, n),
    decreases n - i,
{
    if i < n {
        lemma_sum_restarts_mono(s, i, n - 1);
    }
}

impl ArgonautInit {
    /// The managed service named `name`.
    pub open spec fn svc(&self, name: Seq<char>) -> Option<ManagedService> {
        lookup(self.services.items(), name)
    }

    /// Every field but the boot sequence and boot times is as in `other`.
    pub open spec fn same_but_boot(&self, other: &ArgonautInit) -> bool {
        &&& self.config == other.config
        &&& self.services == other.services
        &&& self.processes == other.processes
    }

    /// Marks the first step for `stage` complete at time `now`. Returns
    /// whether there was such a step.
    pub fn mark_step_complete_at(&mut self, stage: BootStage, now: i64) -> (found: bool)
        ensures
            found == has_stage(old(self).boot_sequence@, stage),
            final(self).same_but_boot(old(self)),
            !found ==> *final(self) == *old(self),
            found ==> exists|i: int|
                first_stage(old(self).boot_sequence@, stage, i) && final(self).boot_sequence@
                    == old(self).boot_sequence@.update(
                    i,
                    completed_step(old(self).boot_sequence@[i], now),
                ),
            found ==> final(self).boot_started == (if old(self).boot_started is None {
                Some(now)
            } else {
                old(self).boot_started
            }),
            found ==> final(self).boot_completed == (if stage == BootStage::BootComplete {
                Some(now)
            } else {
                old(self).boot_completed
            }),
    {
        match self.find_stage(stage) {
            None => false,
            Some(i) => {
                let mut step = self.boot_sequence[i].clone();
                if step.started_at.is_none() {
                    step.started_at = Some(now);
                }
                step.status = BootStepStatus::Complete;
                step.completed_at = Some(now);
                self.boot_sequence.set(i, step);
                if self.boot_started.is_none() {
                    self.boot_started = Some(now);
                }
                if stage == BootStage::BootComplete {
                    self.boot_completed = Some(now);
                }
                true
            },
        }
    }

    /// Marks the first step for `stage` complete now. Returns whether there
    /// was such a step.
    pub fn mark_step_complete(&mut self, stage: BootStage) -> (found: bool)
        ensures
            found == has_stage(old(self).boot_sequence@, stage),
            final(self).same_but_boot(old(self)),
            !found ==> *final(self) == *old(self),
            found ==> exists|i: int, now: i64|
                first_stage(old(self).boot_sequence@, stage, i) && final(self).boot_sequence@
                    == old(self).boot_sequence@.update(
                    i,
                    completed_step(old(self).boot_sequence@[i], now),
                ) && final(self).boot_started == (if old(self).boot_started is None {
                    Some(now)
                } else {
                    old(self).boot_started
                }) && final(self).boot_completed == (if stage == BootStage::BootComplete {
                    Some(now)
                } else {
                    old(self).boot_completed
                }),
    {
        let now = now_ms();
        self.mark_step_complete_at(stage, now)
    }

    /// Marks the first step for `stage` failed with `error` at time `now`.
    /// Returns whether there was such a step.
    pub fn mark_step_failed_at(&mut self, stage: BootStage, error: String, now: i64) -> (found: bool)
        ensures
            found == has_stage(old(self).boot_sequence@, stage),
            final(self).same_but_boot(old(self)),
            final(self).boot_completed == old(self).boot_completed,
            !found ==> *final(self) == *old(self),
            found ==> exists|i: int|
                first_stage(old(self).boot_sequence@, stage, i) && final(self).boot_sequence@
                    == old(self).boot_sequence@.update(
                    i,
                    failed_step(old(self).boot_sequence@[i], error, now),
                ),
            found ==> final(self).boot_started == (if old(self).boot_started is None {
                Some(now)
            } else {
                old(self).boot_started
            }),
    {
        match self.find_stage(stage) {
            None => false,
            Some(i) => {
                let mut step = self.boot_sequence[i].clone();
                if step.started_at.is_none() {
                    step.started_at = Some(now);
                }
                step.status = BootStepStatus::Failed;
                step.completed_at = Some(now);
                step.error = Some(error);
                self.boot_sequence.set(i, step);
                if self.boot_started.is_none() {
                    self.boot_started = Some(now);
                }
                true
            },
        }
    }

    /// Marks the first step for `stage` failed with `error` now. Returns
    /// whether there was such a step.
    pub fn mark_step_failed(&mut self, stage: BootStage, error: String) -> (found: bool)
        ensures
            found == has_stage(old(self).boot_sequence@, stage),
            final(self).same_but_boot(old(self)),
            final(self).boot_completed == old(self).boot_completed,
            !found ==> *final(self) == *old(self),
            found ==> exists|i: int, now: i64|
                first_stage(old(self).boot_sequence@, stage, i) && final(self).boot_sequence@
                    == old(self).boot_sequence@.update(
                    i,
                    failed_step(old(self).boot_sequence@[i], error, now),
                ) && final(self).boot_started == (if old(self).boot_started is None {
                    Some(now)
                } else {
                    old(self).boot_started
                }),
    {
        let now = now_ms();
        self.mark_step_failed_at(stage, error, now)
    }

    /// The index of the first step for `stage`.
    fn find_stage(&self, stage: BootStage) -> (r: Option<usize>)
        ensures
            match r {
                Some(i) => first_stage(self.boot_sequence@, stage, i as int),
                None => !has_stage(self.boot_sequence@, stage),
            },
    {
        let n = self.boot_sequence.len();
        let mut i: usize = 0;
        while i < n
            invariant
                n == self.boot_sequence@.len(),
                i <= n,
                forall|j: int| 0 <= j < i ==> #[trigger] self.boot_sequence@[j].stage != stage,
            decreases n - i,
        {
            if self.boot_sequence[i].stage == stage {
                return Some(i);
            }
            i += 1;
        }
        None
    }

    /// The first boot step that is not yet complete, failed, or skipped.
    pub fn current_stage(&self) -> (r: Option<&BootStep>)
        ensures
            match r {
                Some(s) => exists|i: int|
                    0 <= i < self.boot_sequence@.len() && self.boot_sequence@[i] == *s && step_open(
                        *s,
                    ) && forall|j: int|
                        0 <= j < i ==> !step_open(#[trigger] self.boot_sequence@[j]),
                None => forall|j: int|
                    0 <= j < self.boot_sequence@.len() ==> !step_open(
                        #[trigger] self.boot_sequence@[j],
                    ),
            },
    {
        let n = self.boot_sequence.len();
        let mut i: usize = 0;
        while i < n
            invariant
                n == self.boot_sequence@.len(),
                i <= n,
                forall|j: int| 0 <= j < i ==> !step_open(#[trigger] self.boot_sequence@[j]),
            decreases n - i,
        {
            let s = &self.boot_sequence[i];
            if s.status != BootStepStatus::Complete && s.status != BootStepStatus::Failed
                && s.status != BootStepStatus::Skipped {
                return Some(s);
            }
            i += 1;
        }
        None
    }

    /// Whether every boot step is complete, skipped, or an optional step that
    /// failed.
    pub fn is_boot_complete(&self) -> (b: bool)
        ensures
            b == (forall|j: int|
                0 <= j < self.boot_sequence@.len() ==> step_done(#[trigger] self.boot_sequence@[j])),
    {
        let n = self.boot_sequence.len();
        let mut i: usize = 0;
        while i < n
            invariant
                n == self.boot_sequence@.len(),
                i <= n,
                forall|j: int| 0 <= j < i ==> step_done(#[trigger] self.boot_sequence@[j]),
            decreases n - i,
        {
            let s = &self.boot_sequence[i];
            if !(s.status == BootStepStatus::Complete || s.status == BootStepStatus::Skipped || (
            !s.required && s.status == BootStepStatus::Failed)) {
                assert(!step_done(self.boot_sequence@[i as int]));
                return false;
            }
            i += 1;
        }
        true
    }

    /// Total boot duration in milliseconds, once boot has started and
    /// completed.
    pub fn boot_duration_ms(&self) -> (d: Option<u64>)
        ensures
            d == duration_spec(self.boot_started, self.boot_completed),
    {
        match (self.boot_started, self.boot_completed) {
            (Some(start), Some(end)) => {
                if end <= start {
                    Some(0)
                } else {
                    let d: i128 = (end as i128) - (start as i128);
                    Some(d as u64)
                }
            },
            _ => None,
        }
    }

    /// All boot steps that have failed, in boot order.
    pub fn failed_steps(&self) -> (r: Vec<&BootStep>)
        ensures
            r@.map_values(|x: &BootStep| *x) == failed_of(self.boot_sequence@),
    {
        let n = self.boot_sequence.len();
        let mut r: Vec<&BootStep> = Vec::new();
        let mut i: usize = 0;
        while i < n
            invariant
                n == self.boot_sequence@.len(),
                i <= n,
                r@.map_values(|x: &BootStep| *x) == failed_of(self.boot_sequence@.take(i as int)),
            decreases n - i,
        {
            let s = &self.boot_sequence[i];
            proof {
                assert(self.boot_sequence@.take(i + 1).drop_last() =~= self.boot_sequence@.take(
                    i as int,
                ));
            }
            let ghost before = r@;
            if s.status == BootStepStatus::Failed {
                r.push(s);
                assert(r@.map_values(|x: &BootStep| *x) =~= before.map_values(|x: &BootStep| *x).push(
                    *s,
                ));
            }
            proof {
                let t = self.boot_sequence@.take(i + 1);
                assert(t.last() == *s);
                assert(t.len() > 0);
                if s.status == BootStepStatus::Failed {
                    assert(failed_of(t) == failed_of(t.drop_last()).push(t.last()));
                } else {
                    assert(failed_of(t) == failed_of(t.drop_last()));
                }
            }
            i += 1;
        }
        assert(self.boot_sequence@.take(n as int) =~= self.boot_sequence@);
        r
    }

    /// Whether some required boot step has failed.
    pub fn should_drop_to_emergency(&self) -> (b: bool)
        ensures
            b == exists|j: int|
                0 <= j < self.boot_sequence@.len() && #[trigger] self.boot_sequence@[j].required
                    && self.boot_sequence@[j].status == BootStepStatus::Failed,
    {
        let n = self.boot_sequence.len();
        let mut i: usize = 0;
        while i < n
            invariant
                n == self.boot_sequence@.len(),
                i <= n,
                forall|j: int|
                    0 <= j < i ==> !(#[trigger] self.boot_sequence@[j].required
                        && self.boot_sequence@[j].status == BootStepStatus::Failed),
            decreases n - i,
        {
            let s = &self.boot_sequence[i];
            if s.required && s.status == BootStepStatus::Failed {
                return true;
            }
            i += 1;
        }
        false
    }

    /// Current statistics. The restart counters must add up to a `u32`.
    pub fn stats(&self) -> (st: ArgonautStats)
        requires
            sum_restarts(self.services.items(), self.services.items().len() as int) <= u32::MAX,
        ensures
            st.boot_mode == self.config.boot_mode,
            st.boot_duration_ms == duration_spec(self.boot_started, self.boot_completed),
            st.services_running == count_running(
                self.services.items(),
                self.services.items().len() as int,
            ),
            st.services_failed == count_failed_services(
                self.services.items(),
                self.services.items().len() as int,
            ),
            st.total_restarts == sum_restarts(
                self.services.items(),
                self.services.items().len() as int,
            ),
            st.boot_complete == (forall|j: int|
                0 <= j < self.boot_sequence@.len() ==> step_done(#[trigger] self.boot_sequence@[j])),
    {
        let n = self.services.len();
        let mut running: usize = 0;
        let mut failed: usize = 0;
        let mut restarts: u32 = 0;
        let mut i: usize = 0;
        while i < n
            invariant
                n == self.services.items().len(),
                i <= n,
                running == count_running(self.services.items(), i as int),
                failed == count_failed_services(self.services.items(), i as int),
                restarts == sum_restarts(self.services.items(), i as int),
                running <= i,
                failed <= i,
                sum_restarts(self.services.items(), n as int) <= u32::MAX,
            decreases n - i,
        {
            let (_, svc) = self.services.entry(i);
            proof {
                lemma_sum_restarts_mono(self.services.items(), i + 1, n as int);
            }
            match svc.state {
                ServiceState::Running => {
                    running += 1;
                },
                ServiceState::Failed(_) => {
                    failed += 1;
                },
                _ => {},
            }
            restarts = restarts + svc.restart_count;
            i += 1;
        }
        ArgonautStats {
            boot_mode: self.config.boot_mode,
            boot_duration_ms: self.boot_duration_ms(),
            services_running: running,
            services_failed: failed,
            total_restarts: restarts,
            boot_complete: self.is_boot_complete(),
        }
    }
}

} // verus!
