//! Status, listing and metrics responses, and creating services from
//! requests.

use vstd::prelude::*;

use crate::clock::{elapsed_ms, elapsed_spec, now_ms};
use crate::init::{duration_spec, step_done, ArgonautInit};
use crate::namemap::lookup;
use crate::text::{concat3, contains_str, starts_with};
use crate::types::{
    ArgonautStats, BootMode, BootStep, HealthCheck, LogConfig, ManagedService, ReadyCheck,
    ResourceLimits, RestartConfig, RestartPolicy, ServiceDefinition, ServiceState, ServiceType,
    StringMap,
};

verus! {

/// The runtime status of one service.
#[derive(Debug)]
pub struct ServiceStatus {
    pub name: String,
    pub description: String,
    pub state: ServiceState,
    pub pid: Option<u32>,
    pub enabled: bool,
    pub uptime_ms: Option<u64>,
    pub restart_count: u32,
    /// When the last health check passed (ms since the epoch).
    pub last_health_check: Option<i64>,
    pub depends_on: Vec<String>,
    pub restart_policy: RestartPolicy,
    pub service_type: ServiceType,
}

/// All services with counts by state.
#[derive(Debug)]
pub struct ServiceListResponse {
    pub services: Vec<ServiceStatus>,
    pub total: usize,
    pub running: usize,
    pub starting: usize,
    pub stopping: usize,
    pub failed: usize,
    pub stopped: usize,
}

/// Overall system status.
#[derive(Debug)]
pub struct SystemStatusResponse {
    pub boot_mode: BootMode,
    pub boot_complete: bool,
    pub boot_duration_ms: Option<u64>,
    pub services: ServiceListResponse,
    pub stats: ArgonautStats,
}

/// The boot steps with timing.
#[derive(Debug)]
pub struct BootLogResponse {
    pub boot_mode: BootMode,
    pub steps: Vec<BootStep>,
    /// When boot started (ms since the epoch).
    pub boot_started: Option<i64>,
    /// When boot completed (ms since the epoch).
    pub boot_completed: Option<i64>,
    pub boot_duration_ms: Option<u64>,
}

/// A request to create a service.
#[derive(Debug)]
pub struct ServiceCreateRequest {
    pub name: String,
    pub description: String,
    pub binary_path: String,
    pub args: Vec<String>,
    pub environment: StringMap,
    pub depends_on: Vec<String>,
    pub restart_policy: RestartPolicy,
    pub restart_config: Option<RestartConfig>,
    pub health_check: Option<HealthCheck>,
    pub ready_check: Option<ReadyCheck>,
    pub enabled: bool,
    pub resource_limits: Option<ResourceLimits>,
    pub log_config: Option<LogConfig>,
}

/// Metrics of one service.
#[derive(Debug)]
pub struct ServiceMetrics {
    pub name: String,
    pub state: ServiceState,
    pub uptime_ms: Option<u64>,
    pub restart_count: u32,
    /// When the last health check passed (ms since the epoch).
    pub last_health_check: Option<i64>,
    pub pid: Option<u32>,
    pub service_type: ServiceType,
}

/// System-wide metrics.
#[derive(Debug)]
pub struct SystemMetrics {
    pub boot_mode: BootMode,
    pub boot_duration_ms: Option<u64>,
    pub boot_complete: bool,
    pub services_running: usize,
    pub services_failed: usize,
    pub services_stopped: usize,
    pub total_restarts: u32,
    pub service_metrics: Vec<ServiceMetrics>,
}

/// `enabled` is the default of a request's `enabled` field.
pub fn default_true() -> (b: bool)
    ensures
        b,
{
    true
}

/// The uptime of `m` at time `now`: for a running or starting service with
/// a start time, the time since it started.
pub open spec fn uptime_spec(m: ManagedService, now: i64) -> Option<u64> {
    if m.state is Running || m.state is Starting {
        match m.started_at {
            Some(t) => Some(elapsed_spec(t, now)),
            None => None,
        }
    } else {
        None
    }
}

/// `st` is the status of `m` at time `now`.
pub open spec fn status_of(st: ServiceStatus, m: ManagedService, now: i64) -> bool {
    &&& st.name == m.definition.name
    &&& st.description == m.definition.description
    &&& st.state == m.state
    &&& st.pid == m.pid
    &&& st.enabled == m.definition.enabled
    &&& st.uptime_ms == uptime_spec(m, now)
    &&& st.restart_count == m.restart_count
    &&& st.last_health_check == m.last_health_check
    &&& st.depends_on@ == m.definition.depends_on@
    &&& st.restart_policy == m.definition.restart_policy
    &&& st.service_type == m.definition.service_type
}

/// `mt` is the metrics of `m` at time `now`.
pub open spec fn metrics_of(mt: ServiceMetrics, m: ManagedService, now: i64) -> bool {
    &&& mt.name == m.definition.name
    &&& mt.state == m.state
    &&& mt.uptime_ms == uptime_spec(m, now)
    &&& mt.restart_count == m.restart_count
    &&& mt.last_health_check == m.last_health_check
    &&& mt.pid == m.pid
    &&& mt.service_type == m.definition.service_type
}

/// Each of `sts` is the status at time `now` of the service in the same
/// position of `items`.
pub open spec fn statuses_at(sts: Seq<ServiceStatus>, items: Seq<(String, ManagedService)>, now: i64) -> bool {
    &&& sts.len() == items.len()
    &&& forall|k: int| 0 <= k < items.len() ==> status_of(#[trigger] sts[k], items[k].1, now)
}

/// Each of `mts` is the metrics at time `now` of the service in the same
/// position of `items`.
pub open spec fn metrics_at(mts: Seq<ServiceMetrics>, items: Seq<(String, ManagedService)>, now: i64) -> bool {
    &&& mts.len() == items.len()
    &&& forall|k: int| 0 <= k < items.len() ==> metrics_of(#[trigger] mts[k], items[k].1, now)
}

/// The number of services of `s[0..n]` whose state satisfies `p`.
/// States are selected by `k`: 0 running, 1 starting, 2 stopping, 3 failed,
/// 4 stopped.
pub open spec fn state_is(st: ServiceState, k: int) -> bool {
    if k == 0 {
        is_running_state(st)
    } else if k == 1 {
        is_starting_state(st)
    } else if k == 2 {
        is_stopping_state(st)
    } else if k == 3 {
        is_failed_state(st)
    } else {
        is_stopped_state(st)
    }
}

pub open spec fn count_where(s: Seq<(String, ManagedService)>, n: int, p: int) -> nat
    decreases n,
{
    if n <= 0 {
        0
    } else {
        count_where(s, n - 1, p) + if state_is(s[n - 1].1.state, p) {
            1nat
        } else {
            0nat
        }
    }
}

pub open spec fn is_running_state(s: ServiceState) -> bool {
    s is Running
}

pub open spec fn is_starting_state(s: ServiceState) -> bool {
    s is Starting
}

pub open spec fn is_stopping_state(s: ServiceState) -> bool {
    s is Stopping
}

pub open spec fn is_failed_state(s: ServiceState) -> bool {
    s is Failed
}

pub open spec fn is_stopped_state(s: ServiceState) -> bool {
    s is Stopped
}

/// A count over `s[0..n]` is at most `n`.
proof fn lemma_count_bound(s: Seq<(String, ManagedService)>, n: int, p: int)
    requires
        0 <= n,
    ensures
        count_where(s, n, p) <= n,
    decreases n,
{
    if n > 0 {
        lemma_count_bound(s, n - 1, p);
    }
}

/// The uptime of `m` at time `now`.
fn uptime_at(m: &ManagedService, now: i64) -> (u: Option<u64>)
    ensures
        u == uptime_spec(*m, now),
{
    if m.state.is_active() {
        match m.started_at {
            Some(t) => Some(elapsed_ms(t, now)),
            None => None,
        }
    } else {
        None
    }
}

/// The status of `m` at time `now`.
fn status_at(m: &ManagedService, now: i64) -> (st: ServiceStatus)
    ensures
        status_of(st, *m, now),
{
    let deps = m.definition.depends_on.clone();
    assert(deps@ =~= m.definition.depends_on@);
    ServiceStatus {
        name: m.definition.name.clone(),
        description: m.definition.description.clone(),
        state: m.state.clone(),
        pid: m.pid,
        enabled: m.definition.enabled,
        uptime_ms: uptime_at(m, now),
        restart_count: m.restart_count,
        last_health_check: m.last_health_check,
        depends_on: deps,
        restart_policy: m.definition.restart_policy,
        service_type: m.definition.service_type,
    }
}

/// Whether `name` is a valid service name character: ASCII letter or digit,
/// `-`, `_` or `.`.
pub open spec fn name_char_ok(c: char) -> bool {
    ('a' <= c && c <= 'z') || ('A' <= c && c <= 'Z') || ('0' <= c && c <= '9') || c == '-' || c == '_'
        || c == '.'
}

/// Why a service cannot be created from a request.
#[derive(Debug, PartialEq, Eq)]
pub enum CreateError {
    EmptyName,
    InvalidCharacters { name: String },
    PathTraversal { name: String },
    RelativeBinary { path: String },
    AlreadyRegistered { name: String },
}

impl CreateError {
    pub open spec fn text(self) -> Seq<char> {
        match self {
            CreateError::EmptyName => "service name cannot be empty"@,
            CreateError::InvalidCharacters { name } => "service name '"@ + name@
                + "' contains invalid characters (allowed: alphanumeric, -, _, .)"@,
            CreateError::PathTraversal { name } => "service name '"@ + name@
                + "' contains path traversal sequence"@,
            CreateError::RelativeBinary { path } => "binary_path must be absolute, got '"@ + path@ + "'"@,
            CreateError::AlreadyRegistered { name } => "service '"@ + name@ + "' is already registered"@,
        }
    }

    /// The error message.
    pub fn to_string(&self) -> (s: String)
        ensures
            s@ == self.text(),
    {
        match self {
            CreateError::EmptyName => crate::text::owned("service name cannot be empty"),
            CreateError::InvalidCharacters { name } => concat3(
                "service name '",
                name.as_str(),
                "' contains invalid characters (allowed: alphanumeric, -, _, .)",
            ),
            CreateError::PathTraversal { name } => concat3(
                "service name '",
                name.as_str(),
                "' contains path traversal sequence",
            ),
            CreateError::RelativeBinary { path } => concat3(
                "binary_path must be absolute, got '",
                path.as_str(),
                "'",
            ),
            CreateError::AlreadyRegistered { name } => concat3(
                "service '",
                name.as_str(),
                "' is already registered",
            ),
        }
    }
}

/// Whether every character of `s` is a valid name character.
fn name_chars_ok(s: &str) -> (b: bool)
    ensures
        b == (forall|i: int| 0 <= i < s@.len() ==> name_char_ok(#[trigger] s@[i])),
{
    let n = s.unicode_len();
    let mut i: usize = 0;
    while i < n
        invariant
            n == s@.len(),
            i <= n,
            forall|k: int| 0 <= k < i ==> name_char_ok(#[trigger] s@[k]),
        decreases n - i,
    {
        let c = s.get_char(i);
        if !(('a' <= c && c <= 'z') || ('A' <= c && c <= 'Z') || ('0' <= c && c <= '9') || c == '-'
            || c == '_' || c == '.') {
            return false;
        }
        i += 1;
    }
    true
}

impl ArgonautInit {
    /// The status of service `name`.
    pub fn service_status(&self, name: &str) -> (r: Option<ServiceStatus>)
        ensures
            match self.svc(name@) {
                Some(m) => r matches Some(st) && exists|now: i64| status_of(st, m, now),
                None => r is None,
            },
    {
        let now = now_ms();
        match self.services.get(name) {
            Some(m) => Some(status_at(m, now)),
            None => None,
        }
    }

    /// The status of every service in name order, with counts by state.
    pub fn list_services(&self) -> (r: ServiceListResponse)
        ensures
            ({
                let items = self.services.items();
                let n = items.len() as int;
                &&& exists|now: i64| #[trigger] statuses_at(r.services@, items, now)
                &&& r.total == n
                &&& r.running == count_where(items, n, 0)
                &&& r.starting == count_where(items, n, 1)
                &&& r.stopping == count_where(items, n, 2)
                &&& r.failed == count_where(items, n, 3)
                &&& r.stopped == count_where(items, n, 4)
            }),
    {
        let now = now_ms();
        let ghost items = self.services.items();
        let n = self.services.len();
        let mut services: Vec<ServiceStatus> = Vec::new();
        let mut running: usize = 0;
        let mut starting: usize = 0;
        let mut stopping: usize = 0;
        let mut failed: usize = 0;
        let mut stopped: usize = 0;
        let mut i: usize = 0;
        while i < n
            invariant
                items == self.services.items(),
                n == items.len(),
                i <= n,
                services@.len() == i,
                forall|k: int| 0 <= k < i ==> status_of(#[trigger] services@[k], items[k].1, now),
                running == count_where(items, i as int, 0),
                starting == count_where(items, i as int, 1),
                stopping == count_where(items, i as int, 2),
                failed == count_where(items, i as int, 3),
                stopped == count_where(items, i as int, 4),
            decreases n - i,
        {
            let (_, m) = self.services.entry(i);
            proof {
                lemma_count_bound(items, i as int, 0);
                lemma_count_bound(items, i as int, 1);
                lemma_count_bound(items, i as int, 2);
                lemma_count_bound(items, i as int, 3);
                lemma_count_bound(items, i as int, 4);
            }
            match m.state {
                ServiceState::Running => {
                    running += 1;
                },
                ServiceState::Starting => {
                    starting += 1;
                },
                ServiceState::Stopping => {
                    stopping += 1;
                },
                ServiceState::Failed(_) => {
                    failed += 1;
                },
                ServiceState::Stopped => {
                    stopped += 1;
                },
                ServiceState::Restarting => {},
            }
            services.push(status_at(m, now));
            i += 1;
        }
        let r = ServiceListResponse {
            total: services.len(),
            services,
            running,
            starting,
            stopping,
            failed,
            stopped,
        };
        assert(statuses_at(r.services@, items, now));
        r
    }

    /// The system status: boot mode and progress, the service list, and
    /// statistics. The restart counters must add up to a `u32`.
    pub fn system_status(&self) -> (r: SystemStatusResponse)
        requires
            crate::init::sum_restarts(self.services.items(), self.services.items().len() as int)
                <= u32::MAX,
        ensures
            r.boot_mode == self.config.boot_mode,
            r.boot_complete == (forall|j: int|
                0 <= j < self.boot_sequence@.len() ==> step_done(#[trigger] self.boot_sequence@[j])),
            r.boot_duration_ms == duration_spec(self.boot_started, self.boot_completed),
            r.services.total == self.services.items().len(),
            r.stats.boot_mode == self.config.boot_mode,
    {
        SystemStatusResponse {
            boot_mode: self.config.boot_mode,
            boot_complete: self.is_boot_complete(),
            boot_duration_ms: self.boot_duration_ms(),
            services: self.list_services(),
            stats: self.stats(),
        }
    }

    /// The boot log: every boot step with the boot times.
    pub fn boot_log(&self) -> (r: BootLogResponse)
        ensures
            r.boot_mode == self.config.boot_mode,
            r.steps@ == self.boot_sequence@,
            r.boot_started == self.boot_started,
            r.boot_completed == self.boot_completed,
            r.boot_duration_ms == duration_spec(self.boot_started, self.boot_completed),
    {
        let steps = self.boot_sequence.clone();
        assert(steps@ =~= self.boot_sequence@);
        BootLogResponse {
            boot_mode: self.config.boot_mode,
            steps,
            boot_started: self.boot_started,
            boot_completed: self.boot_completed,
            boot_duration_ms: self.boot_duration_ms(),
        }
    }

    /// System metrics: boot state, counts, restart total, and the metrics
    /// of each service in name order. The restart counters must add up to a
    /// `u32`.
    pub fn system_metrics(&self) -> (r: SystemMetrics)
        requires
            crate::init::sum_restarts(self.services.items(), self.services.items().len() as int)
                <= u32::MAX,
        ensures
            ({
                let items = self.services.items();
                let n = items.len() as int;
                &&& r.boot_mode == self.config.boot_mode
                &&& r.boot_duration_ms == duration_spec(self.boot_started, self.boot_completed)
                &&& r.boot_complete == (forall|j: int|
                    0 <= j < self.boot_sequence@.len() ==> step_done(#[trigger] self.boot_sequence@[j]))
                &&& exists|now: i64| #[trigger] metrics_at(r.service_metrics@, items, now)
                &&& r.services_running == count_where(items, n, 0)
                &&& r.services_failed == count_where(items, n, 3)
                &&& r.services_stopped == count_where(items, n, 4)
                &&& r.total_restarts == crate::init::sum_restarts(items, n)
            }),
    {
        let now = now_ms();
        let ghost items = self.services.items();
        let n = self.services.len();
        let mut metrics: Vec<ServiceMetrics> = Vec::new();
        let mut running: usize = 0;
        let mut failed: usize = 0;
        let mut stopped: usize = 0;
        let mut restarts: u32 = 0;
        let mut i: usize = 0;
        while i < n
            invariant
                items == self.services.items(),
                n == items.len(),
                i <= n,
                metrics@.len() == i,
                forall|k: int| 0 <= k < i ==> metrics_of(#[trigger] metrics@[k], items[k].1, now),
                running == count_where(items, i as int, 0),
                failed == count_where(items, i as int, 3),
                stopped == count_where(items, i as int, 4),
                restarts == crate::init::sum_restarts(items, i as int),
                crate::init::sum_restarts(items, n as int) <= u32::MAX,
            decreases n - i,
        {
            let (_, m) = self.services.entry(i);
            proof {
                lemma_count_bound(items, i as int, 0);
                lemma_count_bound(items, i as int, 3);
                lemma_count_bound(items, i as int, 4);
                crate::init::lemma_sum_restarts_mono(items, i + 1, n as int);
            }
            match m.state {
                ServiceState::Running => {
                    running += 1;
                },
                ServiceState::Failed(_) => {
                    failed += 1;
                },
                ServiceState::Stopped => {
                    stopped += 1;
                },
                _ => {},
            }
            restarts = restarts + m.restart_count;
            metrics.push(
                ServiceMetrics {
                    name: m.definition.name.clone(),
                    state: m.state.clone(),
                    uptime_ms: uptime_at(m, now),
                    restart_count: m.restart_count,
                    last_health_check: m.last_health_check,
                    pid: m.pid,
                    service_type: m.definition.service_type,
                },
            );
            i += 1;
        }
        let r = SystemMetrics {
            boot_mode: self.config.boot_mode,
            boot_duration_ms: self.boot_duration_ms(),
            boot_complete: self.is_boot_complete(),
            services_running: running,
            services_failed: failed,
            services_stopped: stopped,
            total_restarts: restarts,
            service_metrics: metrics,
        };
        assert(metrics_at(r.service_metrics@, items, now));
        r
    }

    /// Creates and registers a service from `req`, returning its status.
    /// The name must be non-empty, of ASCII letters, digits, `-`, `_` and
    /// `.` only, and without `..`; the binary path must be absolute; and no
    /// service of that name may exist. The new service is stopped, required
    /// by no boot mode, and takes the request's settings, with the default
    /// restart limits when the request gives none.
    pub fn create_service_from_request(&mut self, req: ServiceCreateRequest) -> (r: Result<ServiceStatus, CreateError>)
        ensures
            req.name@.len() == 0 ==> r == Err::<ServiceStatus, CreateError>(CreateError::EmptyName),
            req.name@.len() > 0 && !(forall|i: int| 0 <= i < req.name@.len() ==> name_char_ok(#[trigger] req.name@[i]))
                ==> (r matches Err(CreateError::InvalidCharacters { name }) && name@ == req.name@),
            req.name@.len() > 0 && (forall|i: int| 0 <= i < req.name@.len() ==> name_char_ok(#[trigger] req.name@[i]))
                && crate::text::contains_sub(req.name@, ".."@) ==> (r matches Err(CreateError::PathTraversal { name })
                && name@ == req.name@),
            req.name@.len() > 0 && (forall|i: int| 0 <= i < req.name@.len() ==> name_char_ok(#[trigger] req.name@[i]))
                && !crate::text::contains_sub(req.name@, ".."@) && !(req.binary_path@.len() > 0
                && req.binary_path@[0] == '/') ==> (r matches Err(CreateError::RelativeBinary { path }) && path@
                == req.binary_path@),
            req.name@.len() > 0 && (forall|i: int| 0 <= i < req.name@.len() ==> name_char_ok(#[trigger] req.name@[i]))
                && !crate::text::contains_sub(req.name@, ".."@) && (req.binary_path@.len() > 0
                && req.binary_path@[0] == '/') && old(self).svc(req.name@) is Some ==> (r matches Err(
                CreateError::AlreadyRegistered { name },
            ) && name@ == req.name@),
            r is Err ==> *final(self) == *old(self),
            r is Ok ==> old(self).svc(req.name@) is None && final(self).same_but(old(self), req.name@)
                && (final(self).svc(req.name@) matches Some(m) && crate::init::fresh(m)
                && m.definition.name@ == req.name@ && m.definition.binary_path == req.binary_path
                && m.definition.depends_on == req.depends_on && m.definition.required_for_modes@.len() == 0
                && m.definition.restart_policy == req.restart_policy && m.definition.restart_config == (
                match req.restart_config {
                    Some(c) => c,
                    None => RestartConfig { max_restarts: 5, base_delay_ms: 1000, max_delay_ms: 30_000 },
                }) && m.definition.enabled == req.enabled && m.definition.resource_limits
                == req.resource_limits && m.definition.log_config == req.log_config && (r matches Ok(st)
                && exists|now: i64| status_of(st, m, now))),
    {
        if req.name.unicode_len() == 0 {
            return Err(CreateError::EmptyName);
        }
        if !name_chars_ok(req.name.as_str()) {
            return Err(CreateError::InvalidCharacters { name: req.name });
        }
        if contains_str(req.name.as_str(), "..") {
            return Err(CreateError::PathTraversal { name: req.name });
        }
        if !starts_with(req.binary_path.as_str(), "/") {
            proof {
                reveal_strlit("/");
                if req.binary_path@.len() > 0 && req.binary_path@[0] == '/' {
                    assert(req.binary_path@.subrange(0, 1) =~= "/"@);
                }
            }
            return Err(CreateError::RelativeBinary { path: req.binary_path });
        }
        proof {
            reveal_strlit("/");
            assert(req.binary_path@.subrange(0, 1)[0] == "/"@[0]);
            assert(req.binary_path@.len() > 0 && req.binary_path@[0] == '/');
        }
        if self.services.contains_key(req.name.as_str()) {
            return Err(CreateError::AlreadyRegistered { name: req.name });
        }
        let name = req.name.clone();
        let definition = ServiceDefinition {
            name: req.name,
            description: req.description,
            binary_path: req.binary_path,
            args: req.args,
            environment: req.environment,
            depends_on: req.depends_on,
            required_for_modes: Vec::new(),
            restart_policy: req.restart_policy,
            restart_config: match req.restart_config {
                Some(c) => c,
                None => RestartConfig::default(),
            },
            health_check: req.health_check,
            ready_check: req.ready_check,
            enabled: req.enabled,
            service_type: ServiceType::Simple,
            environment_files: Vec::new(),
            pid_file: None,
            resource_limits: req.resource_limits,
            log_config: req.log_config,
            socket_activation: None,
            seccomp: None,
            landlock: None,
            capabilities: None,
        };
        self.register_service(definition);
        let now = now_ms();
        match self.services.get(name.as_str()) {
            Some(m) => Ok(status_at(m, now)),
            None => Err(CreateError::AlreadyRegistered { name }),
        }
    }
}

} // verus!
