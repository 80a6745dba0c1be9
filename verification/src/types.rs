//! Argonaut type definitions — enums, structs, and configuration types.
//!
//! Times are milliseconds since the Unix epoch (`i64`); paths are strings.

use vstd::prelude::*;

use crate::namemap::{lookup, NameMap};
use crate::text::{dec, idec, owned, push_i64, push_str, push_u64};

verus! {

/// A name-to-string map, as used for environment variables.
pub type StringMap = NameMap<String>;

// ---------------------------------------------------------------------------
// Boot mode
// ---------------------------------------------------------------------------

/// Which mode to boot into. Determines which services and boot stages
/// are executed.
#[derive(Debug, Clone, Copy, PartialEq, Eq, Hash, Structural)]
pub enum BootMode {
    /// Headless server: agent-runtime + llm-gateway, no compositor.
    Server,
    /// Full desktop: agent-runtime + llm-gateway + compositor + shell.
    Desktop,
    /// Bare minimum: agent-runtime only (container/embedded use).
    Minimal,
    /// Edge: constrained hardware. Boots daimon only, read-only rootfs.
    Edge,
    /// Recovery: emergency shell only. No services started.
    Recovery,
}

impl BootMode {
    pub open spec fn text(self) -> Seq<char> {
        match self {
            BootMode::Server => "server"@,
            BootMode::Desktop => "desktop"@,
            BootMode::Minimal => "minimal"@,
            BootMode::Edge => "edge"@,
            BootMode::Recovery => "recovery"@,
        }
    }

    /// The lower-case name of the mode.
    pub fn to_string(&self) -> (s: String)
        ensures
            s@ == self.text(),
    {
        match self {
            BootMode::Server => "server".to_string(),
            BootMode::Desktop => "desktop".to_string(),
            BootMode::Minimal => "minimal".to_string(),
            BootMode::Edge => "edge".to_string(),
            BootMode::Recovery => "recovery".to_string(),
        }
    }
}

// ---------------------------------------------------------------------------
// Edge boot configuration
// ---------------------------------------------------------------------------

/// Security and performance configuration for Edge boot mode.
#[derive(Debug)]
pub struct EdgeBootConfig {
    /// Whether the rootfs should be mounted read-only (dm-verity enforced).
    pub readonly_rootfs: bool,
    /// Whether LUKS full-disk encryption is enabled for the data partition.
    pub luks_enabled: bool,
    /// Whether TPM 2.0 attestation is required during boot.
    pub tpm_attestation: bool,
    /// Maximum boot time in milliseconds before the watchdog triggers.
    pub max_boot_time_ms: u64,
    /// TPM2 PCR bindings for LUKS unlock (e.g. "7+14").
    pub pcr_bindings: String,
}

impl Clone for EdgeBootConfig {
    fn clone(&self) -> (r: Self)
        ensures
            r == *self,
    {
        EdgeBootConfig {
            readonly_rootfs: self.readonly_rootfs,
            luks_enabled: self.luks_enabled,
            tpm_attestation: self.tpm_attestation,
            max_boot_time_ms: self.max_boot_time_ms,
            pcr_bindings: self.pcr_bindings.clone(),
        }
    }
}

impl Default for EdgeBootConfig {
    fn default() -> (r: Self)
        ensures
            r.readonly_rootfs,
            r.luks_enabled,
            r.tpm_attestation,
            r.max_boot_time_ms == 3000,
            r.pcr_bindings@ == "7+14"@,
    {
        EdgeBootConfig {
            readonly_rootfs: true,
            luks_enabled: true,
            tpm_attestation: true,
            max_boot_time_ms: 3000,
            pcr_bindings: "7+14".to_string(),
        }
    }
}

// ---------------------------------------------------------------------------
// Boot stages
// ---------------------------------------------------------------------------

/// Ordered boot stages. The derived order is the boot order.
#[derive(Debug, Clone, Copy, PartialEq, Eq, Hash, PartialOrd, Ord, Structural)]
pub enum BootStage {
    MountFilesystems,
    StartDeviceManager,
    VerifyRootfs,
    StartSecurity,
    StartDatabaseServices,
    StartAgentRuntime,
    StartLlmGateway,
    StartModelServices,
    StartCompositor,
    StartShell,
    BootComplete,
}

impl BootStage {
    pub open spec fn rank(self) -> u8 {
        match self {
            BootStage::MountFilesystems => 0,
            BootStage::StartDeviceManager => 1,
            BootStage::VerifyRootfs => 2,
            BootStage::StartSecurity => 3,
            BootStage::StartDatabaseServices => 4,
            BootStage::StartAgentRuntime => 5,
            BootStage::StartLlmGateway => 6,
            BootStage::StartModelServices => 7,
            BootStage::StartCompositor => 8,
            BootStage::StartShell => 9,
            BootStage::BootComplete => 10,
        }
    }

    /// Numeric order for sorting (lower = earlier).
    pub fn order(self) -> (n: u8)
        ensures
            n == self.rank(),
    {
        match self {
            BootStage::MountFilesystems => 0,
            BootStage::StartDeviceManager => 1,
            BootStage::VerifyRootfs => 2,
            BootStage::StartSecurity => 3,
            BootStage::StartDatabaseServices => 4,
            BootStage::StartAgentRuntime => 5,
            BootStage::StartLlmGateway => 6,
            BootStage::StartModelServices => 7,
            BootStage::StartCompositor => 8,
            BootStage::StartShell => 9,
            BootStage::BootComplete => 10,
        }
    }

    pub open spec fn text(self) -> Seq<char> {
        match self {
            BootStage::MountFilesystems => "mount-filesystems"@,
            BootStage::StartDeviceManager => "start-device-manager"@,
            BootStage::VerifyRootfs => "verify-rootfs"@,
            BootStage::StartSecurity => "start-security"@,
            BootStage::StartDatabaseServices => "start-database-services"@,
            BootStage::StartAgentRuntime => "start-agent-runtime"@,
            BootStage::StartLlmGateway => "start-llm-gateway"@,
            BootStage::StartModelServices => "start-model-services"@,
            BootStage::StartCompositor => "start-compositor"@,
            BootStage::StartShell => "start-shell"@,
            BootStage::BootComplete => "boot-complete"@,
        }
    }

    /// The kebab-case name of the stage.
    pub fn to_string(&self) -> (s: String)
        ensures
            s@ == self.text(),
    {
        match self {
            BootStage::MountFilesystems => "mount-filesystems".to_string(),
            BootStage::StartDeviceManager => "start-device-manager".to_string(),
            BootStage::VerifyRootfs => "verify-rootfs".to_string(),
            BootStage::StartSecurity => "start-security".to_string(),
            BootStage::StartDatabaseServices => "start-database-services".to_string(),
            BootStage::StartAgentRuntime => "start-agent-runtime".to_string(),
            BootStage::StartLlmGateway => "start-llm-gateway".to_string(),
            BootStage::StartModelServices => "start-model-services".to_string(),
            BootStage::StartCompositor => "start-compositor".to_string(),
            BootStage::StartShell => "start-shell".to_string(),
            BootStage::BootComplete => "boot-complete".to_string(),
        }
    }
}

// ---------------------------------------------------------------------------
// Boot step
// ---------------------------------------------------------------------------

/// Status of an individual boot step.
#[derive(Debug, Clone, Copy, PartialEq, Eq, Structural)]
pub enum BootStepStatus {
    Pending,
    Running,
    Complete,
    Failed,
    Skipped,
}

impl BootStepStatus {
    pub open spec fn text(self) -> Seq<char> {
        match self {
            BootStepStatus::Pending => "pending"@,
            BootStepStatus::Running => "running"@,
            BootStepStatus::Complete => "complete"@,
            BootStepStatus::Failed => "failed"@,
            BootStepStatus::Skipped => "skipped"@,
        }
    }

    /// The lower-case name of the status.
    pub fn to_string(&self) -> (s: String)
        ensures
            s@ == self.text(),
    {
        match self {
            BootStepStatus::Pending => "pending".to_string(),
            BootStepStatus::Running => "running".to_string(),
            BootStepStatus::Complete => "complete".to_string(),
            BootStepStatus::Failed => "failed".to_string(),
            BootStepStatus::Skipped => "skipped".to_string(),
        }
    }
}

/// A single step in the boot sequence.
#[derive(Debug)]
pub struct BootStep {
    /// Which stage this step represents.
    pub stage: BootStage,
    /// Human-readable description of the step.
    pub description: String,
    /// If true, failure aborts the entire boot.
    pub required: bool,
    /// Maximum time this step may take (milliseconds).
    pub timeout_ms: u64,
    /// Current status.
    pub status: BootStepStatus,
    /// When the step started executing (ms since the epoch).
    pub started_at: Option<i64>,
    /// When the step finished (ms since the epoch).
    pub completed_at: Option<i64>,
    /// Error message, if any.
    pub error: Option<String>,
}

impl Clone for BootStep {
    fn clone(&self) -> (r: Self)
        ensures
            r == *self,
    {
        BootStep {
            stage: self.stage,
            description: self.description.clone(),
            required: self.required,
            timeout_ms: self.timeout_ms,
            status: self.status,
            started_at: self.started_at,
            completed_at: self.completed_at,
            error: match &self.error {
                Some(e) => Some(e.clone()),
                None => None,
            },
        }
    }
}

// ---------------------------------------------------------------------------
// Restart policy
// ---------------------------------------------------------------------------

/// How the init system should handle a service that exits.
#[derive(Debug, Clone, Copy, PartialEq, Eq, Hash, Structural)]
pub enum RestartPolicy {
    /// Always restart, regardless of exit code.
    Always,
    /// Restart only on non-zero exit (default).
    OnFailure,
    /// Never restart; the service is one-shot.
    Never,
}

impl Default for RestartPolicy {
    fn default() -> (r: Self)
        ensures
            r == RestartPolicy::OnFailure,
    {
        RestartPolicy::OnFailure
    }
}

impl RestartPolicy {
    pub open spec fn text(self) -> Seq<char> {
        match self {
            RestartPolicy::Always => "always"@,
            RestartPolicy::OnFailure => "on-failure"@,
            RestartPolicy::Never => "never"@,
        }
    }

    /// The kebab-case name of the policy.
    pub fn to_string(&self) -> (s: String)
        ensures
            s@ == self.text(),
    {
        match self {
            RestartPolicy::Always => "always".to_string(),
            RestartPolicy::OnFailure => "on-failure".to_string(),
            RestartPolicy::Never => "never".to_string(),
        }
    }
}

/// Configuration for restart backoff and limits.
#[derive(Debug, Clone, Copy, PartialEq, Eq, Structural)]
pub struct RestartConfig {
    /// Maximum number of restarts before giving up. 0 = never give up.
    pub max_restarts: u32,
    /// Base delay in milliseconds for the first restart.
    pub base_delay_ms: u64,
    /// Maximum delay in milliseconds (cap for exponential backoff).
    pub max_delay_ms: u64,
}

impl Default for RestartConfig {
    fn default() -> (r: Self)
        ensures
            r.max_restarts == 5,
            r.base_delay_ms == 1000,
            r.max_delay_ms == 30_000,
    {
        RestartConfig { max_restarts: 5, base_delay_ms: 1000, max_delay_ms: 30_000 }
    }
}

/// `2^e`, saturating at `u64::MAX`.
pub open spec fn pow2_sat(e: nat) -> nat
    decreases e,
{
    if e == 0 {
        1
    } else {
        let p = pow2_sat((e - 1) as nat) * 2;
        if p > u64::MAX {
            u64::MAX as nat
        } else {
            p
        }
    }
}

/// Saturating product within `u64`.
pub open spec fn mul_sat(a: nat, b: nat) -> nat {
    if a * b > u64::MAX {
        u64::MAX as nat
    } else {
        a * b
    }
}

/// The larger of two numbers.
pub open spec fn max_nat(a: nat, b: nat) -> nat {
    if a >= b {
        a
    } else {
        b
    }
}

/// The smaller of two numbers.
pub open spec fn min_nat(a: nat, b: nat) -> nat {
    if a <= b {
        a
    } else {
        b
    }
}

/// The restart delay: `max(base,100) * 2^count` (saturating), capped at
/// `max(cap,100)`.
pub open spec fn backoff_spec(base: nat, cap: nat, count: nat) -> nat {
    min_nat(mul_sat(max_nat(base, 100), pow2_sat(count)), max_nat(cap, 100))
}

proof fn lemma_pow2_sat_step(e: nat)
    ensures
        1 <= pow2_sat(e) <= u64::MAX,
        e > 0 ==> pow2_sat((e - 1) as nat) <= pow2_sat(e),
    decreases e,
{
    if e > 0 {
        lemma_pow2_sat_step((e - 1) as nat);
    }
}

proof fn lemma_pow2_sat_mono(a: nat, b: nat)
    requires
        a <= b,
    ensures
        pow2_sat(a) <= pow2_sat(b),
    decreases b - a,
{
    if a < b {
        lemma_pow2_sat_mono(a, (b - 1) as nat);
        lemma_pow2_sat_step(b);
    }
}

/// The restart delay never shrinks as restarts accumulate and never
/// exceeds the cap (raised to 100 ms); the first delay is the base delay
/// (raised to 100 ms) unless the cap is lower.
pub proof fn lemma_backoff_monotone_capped(base: nat, cap: nat, a: nat, b: nat)
    requires
        base <= u64::MAX,
        a <= b,
    ensures
        backoff_spec(base, cap, a) <= backoff_spec(base, cap, b),
        backoff_spec(base, cap, b) <= max_nat(cap, 100),
        backoff_spec(base, cap, 0) == min_nat(max_nat(base, 100), max_nat(cap, 100)),
{
    lemma_pow2_sat_mono(a, b);
    let x = max_nat(base, 100);
    let p = pow2_sat(a);
    let q = pow2_sat(b);
    assert(x * p <= x * q) by (nonlinear_arith)
        requires
            p <= q,
    ;
    assert(mul_sat(x, p) <= mul_sat(x, q));
    assert(pow2_sat(0) == 1);
    assert(x * 1 == x);
}

impl RestartConfig {
    /// Exponential backoff delay for the given restart count; at least
    /// 100ms even when the configured delays are 0.
    pub fn backoff_delay(&self, restart_count: u32) -> (d: u64)
        ensures
            d == backoff_spec(
                self.base_delay_ms as nat,
                self.max_delay_ms as nat,
                restart_count as nat,
            ),
    {
        let base: u64 = if self.base_delay_ms >= 100 {
            self.base_delay_ms
        } else {
            100
        };
        let cap: u64 = if self.max_delay_ms >= 100 {
            self.max_delay_ms
        } else {
            100
        };
        // 2^restart_count, saturating.
        let mut p: u64 = 1;
        let mut k: u32 = 0;
        while k < restart_count
            invariant
                k <= restart_count,
                p as nat == pow2_sat(k as nat),
            decreases restart_count - k,
        {
            p = match p.checked_mul(2) {
                Some(q) => q,
                None => u64::MAX,
            };
            k += 1;
        }
        let delay: u64 = match base.checked_mul(p) {
            Some(q) => q,
            None => u64::MAX,
        };
        if delay <= cap {
            delay
        } else {
            cap
        }
    }

    /// Whether the restart limit has been reached (a limit of 0 never is).
    pub fn limit_exceeded(&self, restart_count: u32) -> (b: bool)
        ensures
            b == (self.max_restarts > 0 && restart_count >= self.max_restarts),
    {
        self.max_restarts > 0 && restart_count >= self.max_restarts
    }
}

// ---------------------------------------------------------------------------
// Health / ready checks
// ---------------------------------------------------------------------------

/// Method used to check health or readiness.
#[derive(Debug, PartialEq, Eq)]
pub enum HealthCheckType {
    /// HTTP GET against a URL — expects 2xx.
    HttpGet(String),
    /// TCP connect to host:port.
    TcpConnect(String, u16),
    /// Run a command (split on whitespace) — 0 exit = healthy.
    Command(String),
    /// Simply check if the PID is still alive.
    ProcessAlive,
}

impl Clone for HealthCheckType {
    fn clone(&self) -> (r: Self)
        ensures
            r == *self,
    {
        match self {
            HealthCheckType::HttpGet(u) => HealthCheckType::HttpGet(u.clone()),
            HealthCheckType::TcpConnect(h, p) => HealthCheckType::TcpConnect(h.clone(), *p),
            HealthCheckType::Command(c) => HealthCheckType::Command(c.clone()),
            HealthCheckType::ProcessAlive => HealthCheckType::ProcessAlive,
        }
    }
}

impl HealthCheckType {
    pub open spec fn text(self) -> Seq<char> {
        match self {
            HealthCheckType::HttpGet(u) => "http-get("@ + u@ + ")"@,
            HealthCheckType::TcpConnect(h, p) => "tcp-connect("@ + h@ + ":"@ + dec(p as nat)
                + ")"@,
            HealthCheckType::Command(c) => "command("@ + c@ + ")"@,
            HealthCheckType::ProcessAlive => "process-alive"@,
        }
    }

    /// A short description of the check, e.g. `tcp-connect(127.0.0.1:8080)`.
    pub fn to_string(&self) -> (s: String)
        ensures
            s@ == self.text(),
    {
        match self {
            HealthCheckType::HttpGet(u) => {
                let mut s = owned("http-get(");
                push_str(&mut s, u.as_str());
                push_str(&mut s, ")");
                s
            },
            HealthCheckType::TcpConnect(h, p) => {
                let mut s = owned("tcp-connect(");
                push_str(&mut s, h.as_str());
                push_str(&mut s, ":");
                push_u64(&mut s, *p as u64);
                push_str(&mut s, ")");
                s
            },
            HealthCheckType::Command(c) => {
                let mut s = owned("command(");
                push_str(&mut s, c.as_str());
                push_str(&mut s, ")");
                s
            },
            HealthCheckType::ProcessAlive => "process-alive".to_string(),
        }
    }
}

/// Periodic health check for a running service.
#[derive(Debug)]
pub struct HealthCheck {
    pub check_type: HealthCheckType,
    /// Milliseconds between checks.
    pub interval_ms: u64,
    /// Per-check timeout (milliseconds).
    pub timeout_ms: u64,
    /// How many consecutive failures before declaring unhealthy.
    pub retries: u32,
}

impl Clone for HealthCheck {
    fn clone(&self) -> (r: Self)
        ensures
            r == *self,
    {
        HealthCheck {
            check_type: self.check_type.clone(),
            interval_ms: self.interval_ms,
            timeout_ms: self.timeout_ms,
            retries: self.retries,
        }
    }
}

/// One-shot readiness check executed at startup.
#[derive(Debug)]
pub struct ReadyCheck {
    pub check_type: HealthCheckType,
    /// Maximum time to wait for readiness (milliseconds).
    pub timeout_ms: u64,
    /// Number of retries before giving up.
    pub retries: u32,
    /// Delay between retry attempts (milliseconds).
    pub retry_delay_ms: u64,
}

impl Clone for ReadyCheck {
    fn clone(&self) -> (r: Self)
        ensures
            r == *self,
    {
        ReadyCheck {
            check_type: self.check_type.clone(),
            timeout_ms: self.timeout_ms,
            retries: self.retries,
            retry_delay_ms: self.retry_delay_ms,
        }
    }
}

// ---------------------------------------------------------------------------
// Service types and configuration
// ---------------------------------------------------------------------------

/// How a service process behaves after being spawned.
#[derive(Debug, Clone, Copy, PartialEq, Eq, Hash, Structural)]
pub enum ServiceType {
    /// Long-running daemon (default).
    Simple,
    /// Forking daemon; the real service runs as a child.
    Forking,
    /// Run-to-completion task.
    Oneshot,
}

impl Default for ServiceType {
    fn default() -> (r: Self)
        ensures
            r == ServiceType::Simple,
    {
        ServiceType::Simple
    }
}

impl ServiceType {
    pub open spec fn text(self) -> Seq<char> {
        match self {
            ServiceType::Simple => "simple"@,
            ServiceType::Forking => "forking"@,
            ServiceType::Oneshot => "oneshot"@,
        }
    }

    /// The lower-case name of the service type.
    pub fn to_string(&self) -> (s: String)
        ensures
            s@ == self.text(),
    {
        match self {
            ServiceType::Simple => "simple".to_string(),
            ServiceType::Forking => "forking".to_string(),
            ServiceType::Oneshot => "oneshot".to_string(),
        }
    }
}

/// Per-service resource limits applied via `prlimit(1)` after spawn.
#[derive(Debug, Clone, Copy, PartialEq, Eq, Structural)]
pub struct ResourceLimits {
    /// `RLIMIT_NOFILE` — maximum open file descriptors.
    pub nofile: Option<u64>,
    /// `RLIMIT_AS` — maximum virtual memory (bytes).
    pub address_space: Option<u64>,
    /// `RLIMIT_NPROC` — maximum number of processes.
    pub nproc: Option<u64>,
    /// `RLIMIT_CORE` — maximum core dump size (bytes).
    pub core: Option<u64>,
}

/// The arguments of one `prlimit` call: `--pid=<pid>` and
/// `--<flag>=<v>:<v>`.
pub open spec fn prlimit_args(pid: u32, flag: Seq<char>, v: u64) -> Seq<Seq<char>> {
    seq!["--pid="@ + dec(pid as nat), "--"@ + flag + "="@ + dec(v as nat) + ":"@ + dec(v as nat)]
}

/// The `(flag, value)` pairs of the limits that are set, in the order
/// nofile, as, nproc, core.
pub open spec fn set_limits(l: ResourceLimits) -> Seq<(Seq<char>, u64)> {
    (if l.nofile is Some {
        seq![("nofile"@, l.nofile->0)]
    } else {
        seq![]
    }) + (if l.address_space is Some {
        seq![("as"@, l.address_space->0)]
    } else {
        seq![]
    }) + (if l.nproc is Some {
        seq![("nproc"@, l.nproc->0)]
    } else {
        seq![]
    }) + (if l.core is Some {
        seq![("core"@, l.core->0)]
    } else {
        seq![]
    })
}

/// A `SafeCommand` whose binary and arguments are the given texts.
pub open spec fn command_is(c: SafeCommand, binary: Seq<char>, args: Seq<Seq<char>>) -> bool {
    c.binary@ == binary && c.args@.len() == args.len() && forall|i: int|
        0 <= i < args.len() ==> #[trigger] c.args@[i]@ == args[i]
}

fn prlimit_command(pid: u32, flag: &str, v: u64) -> (c: SafeCommand)
    ensures
        command_is(c, "prlimit"@, prlimit_args(pid, flag@, v)),
{
    let mut a = owned("--pid=");
    push_u64(&mut a, pid as u64);
    let mut b = owned("--");
    push_str(&mut b, flag);
    push_str(&mut b, "=");
    push_u64(&mut b, v);
    push_str(&mut b, ":");
    push_u64(&mut b, v);
    let mut args: Vec<String> = Vec::new();
    args.push(a);
    args.push(b);
    SafeCommand { binary: "prlimit".to_string(), args }
}

impl ResourceLimits {
    /// `prlimit` commands that apply the limits that are set to `pid`, in
    /// the order nofile, as, nproc, core.
    pub fn to_prlimit_commands(&self, pid: u32) -> (cmds: Vec<SafeCommand>)
        ensures
            cmds@.len() == set_limits(*self).len(),
            forall|i: int|
                0 <= i < cmds@.len() ==> command_is(
                    #[trigger] cmds@[i],
                    "prlimit"@,
                    prlimit_args(pid, set_limits(*self)[i].0, set_limits(*self)[i].1),
                ),
    {
        let mut cmds: Vec<SafeCommand> = Vec::new();
        let ghost mut acc: Seq<(Seq<char>, u64)> = seq![];
        if let Some(v) = self.nofile {
            cmds.push(prlimit_command(pid, "nofile", v));
            proof {
                acc = acc.push(("nofile"@, v));
            }
        }
        if let Some(v) = self.address_space {
            cmds.push(prlimit_command(pid, "as", v));
            proof {
                acc = acc.push(("as"@, v));
            }
        }
        if let Some(v) = self.nproc {
            cmds.push(prlimit_command(pid, "nproc", v));
            proof {
                acc = acc.push(("nproc"@, v));
            }
        }
        if let Some(v) = self.core {
            cmds.push(prlimit_command(pid, "core", v));
            proof {
                acc = acc.push(("core"@, v));
            }
        }
        assert(acc =~= set_limits(*self));
        cmds
    }

    /// Whether no limit is set.
    pub fn is_empty(&self) -> (b: bool)
        ensures
            b == (self.nofile is None && self.address_space is None && self.nproc is None
                && self.core is None),
    {
        self.nofile.is_none() && self.address_space.is_none() && self.nproc.is_none()
            && self.core.is_none()
    }

    /// Secure defaults: core dumps disabled, nothing else limited.
    pub fn secure_defaults() -> (r: Self)
        ensures
            r == (ResourceLimits { nofile: None, address_space: None, nproc: None, core: Some(0) }),
    {
        ResourceLimits { nofile: None, address_space: None, nproc: None, core: Some(0) }
    }
}

/// Log rotation configuration for service stdout/stderr files.
#[derive(Debug, Clone, Copy, PartialEq, Eq, Structural)]
pub struct LogConfig {
    /// Maximum size of a log file before rotation (bytes).
    pub max_size_bytes: u64,
    /// Number of rotated files to keep (at least 1).
    pub max_files: u32,
}

impl LogConfig {
    /// A log configuration; `max_files` is raised to at least 1.
    pub fn new(max_size_bytes: u64, max_files: u32) -> (r: Self)
        ensures
            r.max_size_bytes == max_size_bytes,
            r.max_files == if max_files >= 1 {
                max_files
            } else {
                1
            },
    {
        LogConfig {
            max_size_bytes,
            max_files: if max_files >= 1 {
                max_files
            } else {
                1
            },
        }
    }
}

impl Default for LogConfig {
    fn default() -> (r: Self)
        ensures
            r.max_size_bytes == 10 * 1024 * 1024,
            r.max_files == 5,
    {
        LogConfig { max_size_bytes: 10 * 1024 * 1024, max_files: 5 }
    }
}

// ---------------------------------------------------------------------------
// Security configuration
// ---------------------------------------------------------------------------

/// Socket type for socket activation.
#[derive(Debug, Clone, Copy, PartialEq, Eq, Hash, Structural)]
pub enum SocketType {
    Stream,
    Datagram,
    SeqPacket,
}

impl SocketType {
    pub open spec fn text(self) -> Seq<char> {
        match self {
            SocketType::Stream => "stream"@,
            SocketType::Datagram => "dgram"@,
            SocketType::SeqPacket => "seqpacket"@,
        }
    }

    /// The short name of the socket type.
    pub fn to_string(&self) -> (s: String)
        ensures
            s@ == self.text(),
    {
        match self {
            SocketType::Stream => "stream".to_string(),
            SocketType::Datagram => "dgram".to_string(),
            SocketType::SeqPacket => "seqpacket".to_string(),
        }
    }
}

/// A socket to be passed to a service.
#[derive(Debug)]
pub struct SocketSpec {
    pub address: String,
    pub port: u16,
    pub socket_type: SocketType,
}

/// Socket activation configuration (sd_listen_fds protocol).
#[derive(Debug)]
pub struct SocketActivationConfig {
    pub sockets: Vec<SocketSpec>,
}

impl SocketActivationConfig {
    /// `LISTEN_FDS=<number of sockets>` and `LISTEN_PID=<pid>`.
    pub fn env_vars(&self, pid: u32) -> (v: Vec<(String, String)>)
        ensures
            v@.len() == 2,
            v@[0].0@ == "LISTEN_FDS"@,
            v@[0].1@ == dec(self.sockets@.len()),
            v@[1].0@ == "LISTEN_PID"@,
            v@[1].1@ == dec(pid as nat),
    {
        let mut v: Vec<(String, String)> = Vec::new();
        v.push(self.listen_fds_env());
        let mut p = String::new();
        push_u64(&mut p, pid as u64);
        assert(p@ =~= dec(pid as nat));
        v.push(("LISTEN_PID".to_string(), p));
        v
    }

    /// Just the `LISTEN_FDS` pair.
    pub fn listen_fds_env(&self) -> (r: (String, String))
        ensures
            r.0@ == "LISTEN_FDS"@,
            r.1@ == dec(self.sockets@.len()),
    {
        let mut n = String::new();
        push_u64(&mut n, self.sockets.len() as u64);
        assert(n@ =~= dec(self.sockets@.len()));
        ("LISTEN_FDS".to_string(), n)
    }
}

/// What a seccomp filter does with a denied syscall.
#[derive(Debug, Clone, Copy, PartialEq, Eq, Structural)]
pub enum SeccompAction {
    Kill,
    Trap,
    Log,
}

impl SeccompAction {
    pub open spec fn text(self) -> Seq<char> {
        match self {
            SeccompAction::Kill => "kill"@,
            SeccompAction::Trap => "trap"@,
            SeccompAction::Log => "log"@,
        }
    }

    /// The lower-case name of the action.
    pub fn to_string(&self) -> (s: String)
        ensures
            s@ == self.text(),
    {
        match self {
            SeccompAction::Kill => "kill".to_string(),
            SeccompAction::Trap => "trap".to_string(),
            SeccompAction::Log => "log".to_string(),
        }
    }
}

/// Seccomp filter configuration.
#[derive(Debug)]
pub enum SeccompConfig {
    Basic,
    Custom { allow: Vec<String>, deny: Vec<(String, SeccompAction)> },
}

/// Landlock filesystem access level.
#[derive(Debug, Clone, Copy, PartialEq, Eq, Structural)]
pub enum LandlockAccess {
    NoAccess,
    ReadOnly,
    ReadWrite,
}

impl Default for LandlockAccess {
    fn default() -> (r: Self)
        ensures
            r == LandlockAccess::NoAccess,
    {
        LandlockAccess::NoAccess
    }
}

impl LandlockAccess {
    pub open spec fn text(self) -> Seq<char> {
        match self {
            LandlockAccess::NoAccess => "none"@,
            LandlockAccess::ReadOnly => "ro"@,
            LandlockAccess::ReadWrite => "rw"@,
        }
    }

    /// The short name of the access level.
    pub fn to_string(&self) -> (s: String)
        ensures
            s@ == self.text(),
    {
        match self {
            LandlockAccess::NoAccess => "none".to_string(),
            LandlockAccess::ReadOnly => "ro".to_string(),
            LandlockAccess::ReadWrite => "rw".to_string(),
        }
    }
}

/// One Landlock rule: a path and its access.
#[derive(Debug)]
pub struct LandlockRule {
    pub path: String,
    pub access: LandlockAccess,
}

/// Landlock filesystem restrictions.
#[derive(Debug)]
pub struct LandlockConfig {
    pub rules: Vec<LandlockRule>,
}

/// Linux capabilities that a service may drop.
#[derive(Debug, Clone, Copy, PartialEq, Eq, Hash, Structural)]
pub enum LinuxCapability {
    NetBindService,
    SysAdmin,
    DacOverride,
    NetRaw,
    SysChroot,
    Setuid,
    Setgid,
    Kill,
    SysPtrace,
    SysTime,
    NetAdmin,
    Fowner,
    Fsetid,
}

impl LinuxCapability {
    pub open spec fn text(self) -> Seq<char> {
        match self {
            LinuxCapability::NetBindService => "cap_net_bind_service"@,
            LinuxCapability::SysAdmin => "cap_sys_admin"@,
            LinuxCapability::DacOverride => "cap_dac_override"@,
            LinuxCapability::NetRaw => "cap_net_raw"@,
            LinuxCapability::SysChroot => "cap_sys_chroot"@,
            LinuxCapability::Setuid => "cap_setuid"@,
            LinuxCapability::Setgid => "cap_setgid"@,
            LinuxCapability::Kill => "cap_kill"@,
            LinuxCapability::SysPtrace => "cap_sys_ptrace"@,
            LinuxCapability::SysTime => "cap_sys_time"@,
            LinuxCapability::NetAdmin => "cap_net_admin"@,
            LinuxCapability::Fowner => "cap_fowner"@,
            LinuxCapability::Fsetid => "cap_fsetid"@,
        }
    }

    /// The kernel name of the capability (`cap_*`).
    pub fn as_str(&self) -> (s: &'static str)
        ensures
            s@ == self.text(),
    {
        match self {
            LinuxCapability::NetBindService => "cap_net_bind_service",
            LinuxCapability::SysAdmin => "cap_sys_admin",
            LinuxCapability::DacOverride => "cap_dac_override",
            LinuxCapability::NetRaw => "cap_net_raw",
            LinuxCapability::SysChroot => "cap_sys_chroot",
            LinuxCapability::Setuid => "cap_setuid",
            LinuxCapability::Setgid => "cap_setgid",
            LinuxCapability::Kill => "cap_kill",
            LinuxCapability::SysPtrace => "cap_sys_ptrace",
            LinuxCapability::SysTime => "cap_sys_time",
            LinuxCapability::NetAdmin => "cap_net_admin",
            LinuxCapability::Fowner => "cap_fowner",
            LinuxCapability::Fsetid => "cap_fsetid",
        }
    }

    /// The kernel name of the capability, as an owned string.
    pub fn to_string(&self) -> (s: String)
        ensures
            s@ == self.text(),
    {
        owned(self.as_str())
    }
}

/// Capabilities to drop from a service's bounding set.
#[derive(Debug)]
pub struct CapabilityConfig {
    pub drop: Vec<LinuxCapability>,
}

/// `"-c1,-c2,..."`: the names of `caps`, each with a leading `-`, joined
/// by `,`.
pub open spec fn bounding_list(caps: Seq<LinuxCapability>) -> Seq<char>
    decreases caps.len(),
{
    if caps.len() == 0 {
        seq![]
    } else if caps.len() == 1 {
        "-"@ + caps[0].text()
    } else {
        bounding_list(caps.drop_last()) + ",-"@ + caps.last().text()
    }
}

/// The arguments of the `setpriv` call that drops `caps` and runs
/// `binary` with `args`.
pub open spec fn setpriv_args(caps: Seq<LinuxCapability>, binary: Seq<char>, args: Seq<Seq<char>>) -> Seq<
    Seq<char>,
> {
    seq!["--no-new-privs"@] + (if caps.len() == 0 {
        seq![]
    } else {
        seq!["--bounding-set="@ + bounding_list(caps)]
    }) + seq![binary] + args
}

impl CapabilityConfig {
    /// A `setpriv` command that drops the capabilities and execs `binary`
    /// with `args` (each argument a separate element: no shell).
    pub fn to_setpriv_command(&self, binary: &str, args: &[String]) -> (c: SafeCommand)
        ensures
            command_is(
                c,
                "setpriv"@,
                setpriv_args(self.drop@, binary@, args@.map_values(|a: String| a@)),
            ),
    {
        let mut out: Vec<String> = Vec::new();
        out.push("--no-new-privs".to_string());
        let ghost mut want: Seq<Seq<char>> = seq!["--no-new-privs"@];
        if self.drop.len() > 0 {
            let mut b = owned("--bounding-set=");
            let n = self.drop.len();
            let mut i: usize = 0;
            while i < n
                invariant
                    n == self.drop@.len(),
                    i <= n,
                    b@ == "--bounding-set="@ + bounding_list(self.drop@.subrange(0, i as int)),
                decreases n - i,
            {
                let ghost before = b@;
                if i == 0 {
                    push_str(&mut b, "-");
                } else {
                    push_str(&mut b, ",-");
                }
                push_str(&mut b, self.drop[i].as_str());
                proof {
                    let pre = self.drop@.subrange(0, i as int);
                    let post = self.drop@.subrange(0, i + 1);
                    assert(post.drop_last() =~= pre);
                    assert(post.last() == self.drop@[i as int]);
                    if i == 0 {
                        assert(pre.len() == 0);
                        assert(bounding_list(pre) =~= seq![]);
                    }
                    assert(b@ =~= "--bounding-set="@ + bounding_list(post));
                }
                i += 1;
            }
            assert(self.drop@.subrange(0, n as int) =~= self.drop@);
            out.push(b);
            proof {
                want = want + seq!["--bounding-set="@ + bounding_list(self.drop@)];
            }
        }
        out.push(owned(binary));
        proof {
            want = want + seq![binary@];
        }
        let ghost base = want;
        let n = args.len();
        let mut i: usize = 0;
        while i < n
            invariant
                n == args@.len(),
                i <= n,
                out@.len() == base.len() + i,
                forall|j: int| 0 <= j < base.len() ==> #[trigger] out@[j]@ == base[j],
                forall|j: int| 0 <= j < i ==> #[trigger] out@[base.len() + j]@ == args@[j]@,
            decreases n - i,
        {
            out.push(args[i].clone());
            i += 1;
        }
        let ghost full = setpriv_args(self.drop@, binary@, args@.map_values(|a: String| a@));
        assert(full =~= base + args@.map_values(|a: String| a@));
        assert forall|j: int| 0 <= j < full.len() implies #[trigger] out@[j]@ == full[j] by {
            if j >= base.len() {
                assert(out@[base.len() + (j - base.len())]@ == args@[j - base.len()]@);
            }
        }
        SafeCommand { binary: "setpriv".to_string(), args: out }
    }
}

/// A boot-time filesystem entry (tmpfiles.d equivalent).
#[derive(Debug)]
pub enum TmpfileEntry {
    Directory { path: String, mode: u32, uid: Option<u32>, gid: Option<u32> },
    Symlink { path: String, target: String },
    Device { path: String, dev_type: char, major: u32, minor: u32, mode: u32 },
}

/// Static definition of a service managed by argonaut.
#[derive(Debug)]
pub struct ServiceDefinition {
    /// Unique service name (e.g. "daimon").
    pub name: String,
    /// Human-readable description.
    pub description: String,
    /// Path to the executable binary.
    pub binary_path: String,
    /// Command-line arguments.
    pub args: Vec<String>,
    /// Environment variables.
    pub environment: StringMap,
    /// Names of services that must be running before this one starts.
    pub depends_on: Vec<String>,
    /// Boot modes that require this service.
    pub required_for_modes: Vec<BootMode>,
    /// What to do when the service exits.
    pub restart_policy: RestartPolicy,
    /// Backoff and limit for restarts.
    pub restart_config: RestartConfig,
    /// Optional periodic health check.
    pub health_check: Option<HealthCheck>,
    /// Optional one-shot startup readiness check.
    pub ready_check: Option<ReadyCheck>,
    /// Whether the service takes part in boot.
    pub enabled: bool,
    /// How the process behaves after spawn.
    pub service_type: ServiceType,
    /// Environment files loaded before spawn, in order.
    pub environment_files: Vec<String>,
    /// PID file of a forking service.
    pub pid_file: Option<String>,
    /// Resource limits applied after spawn.
    pub resource_limits: Option<ResourceLimits>,
    /// Log rotation for the service's log files.
    pub log_config: Option<LogConfig>,
    /// Sockets passed to the service.
    pub socket_activation: Option<SocketActivationConfig>,
    /// Seccomp filter for the service.
    pub seccomp: Option<SeccompConfig>,
    /// Landlock rules for the service.
    pub landlock: Option<LandlockConfig>,
    /// Capabilities dropped for the service.
    pub capabilities: Option<CapabilityConfig>,
}

/// Runtime state of a service.
#[derive(Debug, PartialEq, Eq)]
pub enum ServiceState {
    Stopped,
    Starting,
    Running,
    Stopping,
    Failed(String),
    Restarting,
}

impl Clone for ServiceState {
    fn clone(&self) -> (r: Self)
        ensures
            r == *self,
    {
        match self {
            ServiceState::Stopped => ServiceState::Stopped,
            ServiceState::Starting => ServiceState::Starting,
            ServiceState::Running => ServiceState::Running,
            ServiceState::Stopping => ServiceState::Stopping,
            ServiceState::Failed(m) => ServiceState::Failed(m.clone()),
            ServiceState::Restarting => ServiceState::Restarting,
        }
    }
}

/// Two states are the same: the same variant, and for `Failed` the same message.
pub open spec fn same_state(a: ServiceState, b: ServiceState) -> bool {
    match (a, b) {
        (ServiceState::Failed(x), ServiceState::Failed(y)) => x@ == y@,
        (ServiceState::Stopped, ServiceState::Stopped) => true,
        (ServiceState::Starting, ServiceState::Starting) => true,
        (ServiceState::Running, ServiceState::Running) => true,
        (ServiceState::Stopping, ServiceState::Stopping) => true,
        (ServiceState::Restarting, ServiceState::Restarting) => true,
        _ => false,
    }
}

/// Whether the life cycle allows moving from `from` to `to`.
pub open spec fn transition_ok(from: ServiceState, to: ServiceState) -> bool {
    same_state(from, to) || match from {
        ServiceState::Stopped => to is Starting,
        ServiceState::Starting => to is Running || to is Failed,
        ServiceState::Running => to is Stopping || to is Failed,
        ServiceState::Stopping => to is Stopped || to is Failed,
        ServiceState::Failed(_) => to is Starting || to is Stopped,
        ServiceState::Restarting => to is Starting,
    }
}

/// The same state (variant and message).
pub fn state_eq(a: &ServiceState, b: &ServiceState) -> (r: bool)
    ensures
        r == same_state(*a, *b),
{
    match (a, b) {
        (ServiceState::Stopped, ServiceState::Stopped) => true,
        (ServiceState::Starting, ServiceState::Starting) => true,
        (ServiceState::Running, ServiceState::Running) => true,
        (ServiceState::Stopping, ServiceState::Stopping) => true,
        (ServiceState::Failed(x), ServiceState::Failed(y)) => crate::text::str_eq(x.as_str(), y.as_str()),
        (ServiceState::Restarting, ServiceState::Restarting) => true,
        _ => false,
    }
}

impl ServiceState {
    /// Check whether a transition from `self` to `to` is valid.
    pub fn valid_transition(&self, to: &ServiceState) -> (b: bool)
        ensures
            b == transition_ok(*self, *to),
    {
        if state_eq(self, to) {
            return true;
        }
        match self {
            ServiceState::Stopped => matches!(to, ServiceState::Starting),
            ServiceState::Starting => matches!(to, ServiceState::Running | ServiceState::Failed(_)),
            ServiceState::Running => matches!(to, ServiceState::Stopping | ServiceState::Failed(_)),
            ServiceState::Stopping => matches!(to, ServiceState::Stopped | ServiceState::Failed(_)),
            ServiceState::Failed(_) => matches!(to, ServiceState::Starting | ServiceState::Stopped),
            ServiceState::Restarting => matches!(to, ServiceState::Starting),
        }
    }

    pub open spec fn text(self) -> Seq<char> {
        match self {
            ServiceState::Stopped => "stopped"@,
            ServiceState::Starting => "starting"@,
            ServiceState::Running => "running"@,
            ServiceState::Stopping => "stopping"@,
            ServiceState::Failed(m) => "failed: "@ + m@,
            ServiceState::Restarting => "restarting"@,
        }
    }

    /// The lower-case name of the state; `failed: <message>` for failures.
    pub fn to_string(&self) -> (s: String)
        ensures
            s@ == self.text(),
    {
        match self {
            ServiceState::Stopped => "stopped".to_string(),
            ServiceState::Starting => "starting".to_string(),
            ServiceState::Running => "running".to_string(),
            ServiceState::Stopping => "stopping".to_string(),
            ServiceState::Failed(m) => {
                let mut s = owned("failed: ");
                push_str(&mut s, m.as_str());
                s
            },
            ServiceState::Restarting => "restarting".to_string(),
        }
    }

    /// Whether the state is `Running`.
    pub fn is_running(&self) -> (b: bool)
        ensures
            b == (*self is Running),
    {
        matches!(self, ServiceState::Running)
    }

    /// Whether the state is `Running` or `Starting`.
    pub fn is_active(&self) -> (b: bool)
        ensures
            b == (*self is Running || *self is Starting),
    {
        matches!(self, ServiceState::Running | ServiceState::Starting)
    }
}

/// A service with its runtime state.
#[derive(Debug)]
pub struct ManagedService {
    pub definition: ServiceDefinition,
    pub state: ServiceState,
    pub pid: Option<u32>,
    /// When the service was started (ms since the epoch).
    pub started_at: Option<i64>,
    pub restart_count: u32,
    /// When the last health check passed (ms since the epoch).
    pub last_health_check: Option<i64>,
}

// ---------------------------------------------------------------------------
// Configuration
// ---------------------------------------------------------------------------

/// Top-level configuration for the argonaut init system.
#[derive(Debug)]
pub struct ArgonautConfig {
    /// Which boot mode to use.
    pub boot_mode: BootMode,
    /// Service definitions to manage.
    pub services: Vec<ServiceDefinition>,
    /// Total boot timeout in milliseconds (default 30 000).
    pub boot_timeout_ms: u64,
    /// Graceful shutdown timeout in milliseconds (default 10 000).
    pub shutdown_timeout_ms: u64,
    /// Whether to log to the console.
    pub log_to_console: bool,
    /// Whether to run dm-verity rootfs verification at boot.
    pub verify_on_boot: bool,
    /// Edge boot settings.
    pub edge_boot: EdgeBootConfig,
    /// Boot-time filesystem entries.
    pub tmpfiles: Vec<TmpfileEntry>,
}

impl Default for ArgonautConfig {
    fn default() -> (r: Self)
        ensures
            r.boot_mode == BootMode::Desktop,
            r.services@.len() == 0,
            r.boot_timeout_ms == 30_000,
            r.shutdown_timeout_ms == 10_000,
            r.log_to_console,
            r.verify_on_boot,
            r.edge_boot.readonly_rootfs,
            r.edge_boot.luks_enabled,
            r.edge_boot.tpm_attestation,
            r.edge_boot.max_boot_time_ms == 3000,
            r.edge_boot.pcr_bindings@ == "7+14"@,
            r.tmpfiles@.len() == 0,
    {
        ArgonautConfig {
            boot_mode: BootMode::Desktop,
            services: Vec::new(),
            boot_timeout_ms: 30_000,
            shutdown_timeout_ms: 10_000,
            log_to_console: true,
            verify_on_boot: true,
            edge_boot: EdgeBootConfig::default(),
            tmpfiles: Vec::new(),
        }
    }
}

/// Snapshot of init-system statistics.
#[derive(Debug, Clone, Copy, PartialEq, Eq)]
pub struct ArgonautStats {
    pub boot_mode: BootMode,
    pub boot_duration_ms: Option<u64>,
    pub services_running: usize,
    pub services_failed: usize,
    pub total_restarts: u32,
    pub boot_complete: bool,
}

// ---------------------------------------------------------------------------
// Runlevel
// ---------------------------------------------------------------------------

/// A system operational state, mapped to boot modes.
#[derive(Debug, Clone, Copy, PartialEq, Eq, Hash, Structural)]
pub enum Runlevel {
    /// Single-user, no services, drop to the shell.
    Emergency,
    /// Basic services only, for recovery.
    Rescue,
    /// Multi-user text mode (Server).
    Console,
    /// Full desktop (Desktop).
    Graphical,
    /// Minimal services for containers (Minimal).
    Container,
    /// Constrained edge device (Edge).
    Edge,
}

impl Runlevel {
    pub open spec fn boot_mode_of(self) -> Option<BootMode> {
        match self {
            Runlevel::Emergency | Runlevel::Rescue => None,
            Runlevel::Console => Some(BootMode::Server),
            Runlevel::Graphical => Some(BootMode::Desktop),
            Runlevel::Container => Some(BootMode::Minimal),
            Runlevel::Edge => Some(BootMode::Edge),
        }
    }

    pub open spec fn of_boot_mode(mode: BootMode) -> Runlevel {
        match mode {
            BootMode::Server => Runlevel::Console,
            BootMode::Desktop => Runlevel::Graphical,
            BootMode::Minimal => Runlevel::Container,
            BootMode::Edge => Runlevel::Edge,
            BootMode::Recovery => Runlevel::Emergency,
        }
    }

    /// The boot mode whose services this runlevel runs, if any.
    pub fn to_boot_mode(self) -> (m: Option<BootMode>)
        ensures
            m == self.boot_mode_of(),
    {
        match self {
            Runlevel::Emergency | Runlevel::Rescue => None,
            Runlevel::Console => Some(BootMode::Server),
            Runlevel::Graphical => Some(BootMode::Desktop),
            Runlevel::Container => Some(BootMode::Minimal),
            Runlevel::Edge => Some(BootMode::Edge),
        }
    }

    /// The runlevel of a boot mode.
    pub fn from_boot_mode(mode: BootMode) -> (r: Self)
        ensures
            r == Runlevel::of_boot_mode(mode),
    {
        match mode {
            BootMode::Server => Runlevel::Console,
            BootMode::Desktop => Runlevel::Graphical,
            BootMode::Minimal => Runlevel::Container,
            BootMode::Edge => Runlevel::Edge,
            BootMode::Recovery => Runlevel::Emergency,
        }
    }

    /// The runlevel of a boot mode runs that boot mode's services again,
    /// for every mode but recovery (whose runlevel runs none).
    pub proof fn lemma_boot_mode_roundtrip(mode: BootMode)
        requires
            mode != BootMode::Recovery,
        ensures
            Runlevel::of_boot_mode(mode).boot_mode_of() == Some(mode),
    {
    }

    pub open spec fn level_of(self) -> u8 {
        match self {
            Runlevel::Emergency => 0,
            Runlevel::Rescue => 1,
            Runlevel::Console => 3,
            Runlevel::Graphical => 5,
            Runlevel::Container => 7,
            Runlevel::Edge => 8,
        }
    }

    /// The SysV-style number of the runlevel.
    pub fn level(self) -> (n: u8)
        ensures
            n == self.level_of(),
    {
        match self {
            Runlevel::Emergency => 0,
            Runlevel::Rescue => 1,
            Runlevel::Console => 3,
            Runlevel::Graphical => 5,
            Runlevel::Container => 7,
            Runlevel::Edge => 8,
        }
    }

    pub open spec fn text(self) -> Seq<char> {
        match self {
            Runlevel::Emergency => "emergency"@,
            Runlevel::Rescue => "rescue"@,
            Runlevel::Console => "console"@,
            Runlevel::Graphical => "graphical"@,
            Runlevel::Container => "container"@,
            Runlevel::Edge => "edge"@,
        }
    }

    /// The lower-case name of the runlevel.
    pub fn to_string(&self) -> (s: String)
        ensures
            s@ == self.text(),
    {
        match self {
            Runlevel::Emergency => "emergency".to_string(),
            Runlevel::Rescue => "rescue".to_string(),
            Runlevel::Console => "console".to_string(),
            Runlevel::Graphical => "graphical".to_string(),
            Runlevel::Container => "container".to_string(),
            Runlevel::Edge => "edge".to_string(),
        }
    }
}

// ---------------------------------------------------------------------------
// Process execution types
// ---------------------------------------------------------------------------

/// Describes how a service process exited.
#[derive(Debug, Clone, Copy, PartialEq, Eq, Structural)]
pub enum ExitStatus {
    /// Exited normally with the given code (0 = success).
    Code(i32),
    /// Killed by a signal.
    Signal(i32),
    /// Process hasn't exited yet.
    Running,
    /// Never started.
    NotStarted,
}

impl ExitStatus {
    pub open spec fn text(self) -> Seq<char> {
        match self {
            ExitStatus::Code(c) => "exit("@ + idec(c as int) + ")"@,
            ExitStatus::Signal(s) => "signal("@ + idec(s as int) + ")"@,
            ExitStatus::Running => "running"@,
            ExitStatus::NotStarted => "not-started"@,
        }
    }

    /// `exit(<code>)`, `signal(<n>)`, `running` or `not-started`.
    pub fn to_string(&self) -> (s: String)
        ensures
            s@ == self.text(),
    {
        let mut s = String::new();
        self.push_to(&mut s);
        assert(s@ =~= self.text());
        s
    }

    /// Appends the text of the status.
    pub fn push_to(&self, s: &mut String)
        ensures
            final(s)@ == old(s)@ + self.text(),
    {
        match self {
            ExitStatus::Code(c) => {
                push_str(s, "exit(");
                push_i64(s, *c as i64);
                push_str(s, ")");
            },
            ExitStatus::Signal(n) => {
                push_str(s, "signal(");
                push_i64(s, *n as i64);
                push_str(s, ")");
            },
            ExitStatus::Running => push_str(s, "running"),
            ExitStatus::NotStarted => push_str(s, "not-started"),
        }
        assert(final(s)@ =~= old(s)@ + self.text());
    }
}

/// A service lifecycle event.
#[derive(Debug)]
pub struct ServiceEvent {
    /// When the event happened (ms since the epoch).
    pub timestamp: i64,
    pub service: String,
    pub event_type: ServiceEventType,
    pub details: Option<String>,
}

/// Types of service lifecycle events.
#[derive(Debug, PartialEq, Eq)]
pub enum ServiceEventType {
    Starting,
    Started { pid: u32 },
    HealthCheckPassed,
    HealthCheckFailed { consecutive: u32 },
    ReadyCheckPassed,
    ReadyCheckFailed,
    Stopping,
    Stopped { exit_status: ExitStatus },
    Restarting { restart_count: u32 },
    DependencyWaiting { dependency: String },
    DependencyMet { dependency: String },
    TimeoutKilled,
    CrashDetected { exit_status: ExitStatus },
    Enabled,
    Disabled,
}

impl Clone for ServiceEventType {
    fn clone(&self) -> (r: Self)
        ensures
            r == *self,
    {
        match self {
            ServiceEventType::Starting => ServiceEventType::Starting,
            ServiceEventType::Started { pid } => ServiceEventType::Started { pid: *pid },
            ServiceEventType::HealthCheckPassed => ServiceEventType::HealthCheckPassed,
            ServiceEventType::HealthCheckFailed { consecutive } => ServiceEventType::HealthCheckFailed {
                consecutive: *consecutive,
            },
            ServiceEventType::ReadyCheckPassed => ServiceEventType::ReadyCheckPassed,
            ServiceEventType::ReadyCheckFailed => ServiceEventType::ReadyCheckFailed,
            ServiceEventType::Stopping => ServiceEventType::Stopping,
            ServiceEventType::Stopped { exit_status } => ServiceEventType::Stopped {
                exit_status: *exit_status,
            },
            ServiceEventType::Restarting { restart_count } => ServiceEventType::Restarting {
                restart_count: *restart_count,
            },
            ServiceEventType::DependencyWaiting { dependency } => ServiceEventType::DependencyWaiting {
                dependency: dependency.clone(),
            },
            ServiceEventType::DependencyMet { dependency } => ServiceEventType::DependencyMet {
                dependency: dependency.clone(),
            },
            ServiceEventType::TimeoutKilled => ServiceEventType::TimeoutKilled,
            ServiceEventType::CrashDetected { exit_status } => ServiceEventType::CrashDetected {
                exit_status: *exit_status,
            },
            ServiceEventType::Enabled => ServiceEventType::Enabled,
            ServiceEventType::Disabled => ServiceEventType::Disabled,
        }
    }
}

impl ServiceEventType {
    pub open spec fn text(self) -> Seq<char> {
        match self {
            ServiceEventType::Starting => "starting"@,
            ServiceEventType::Started { pid } => "started(pid="@ + dec(pid as nat) + ")"@,
            ServiceEventType::HealthCheckPassed => "health-ok"@,
            ServiceEventType::HealthCheckFailed { consecutive } => "health-fail("@ + dec(
                consecutive as nat,
            ) + "x)"@,
            ServiceEventType::ReadyCheckPassed => "ready"@,
            ServiceEventType::ReadyCheckFailed => "not-ready"@,
            ServiceEventType::Stopping => "stopping"@,
            ServiceEventType::Stopped { exit_status } => "stopped("@ + exit_status.text() + ")"@,
            ServiceEventType::Restarting { restart_count } => "restarting(#"@ + dec(
                restart_count as nat,
            ) + ")"@,
            ServiceEventType::DependencyWaiting { dependency } => "waiting("@ + dependency@
                + ")"@,
            ServiceEventType::DependencyMet { dependency } => "dep-met("@ + dependency@ + ")"@,
            ServiceEventType::TimeoutKilled => "timeout-killed"@,
            ServiceEventType::CrashDetected { exit_status } => "crash("@ + exit_status.text()
                + ")"@,
            ServiceEventType::Enabled => "enabled"@,
            ServiceEventType::Disabled => "disabled"@,
        }
    }

    /// A short description of the event, e.g. `started(pid=42)`.
    pub fn to_string(&self) -> (s: String)
        ensures
            s@ == self.text(),
    {
        let mut s = String::new();
        match self {
            ServiceEventType::Starting => push_str(&mut s, "starting"),
            ServiceEventType::Started { pid } => {
                push_str(&mut s, "started(pid=");
                push_u64(&mut s, *pid as u64);
                push_str(&mut s, ")");
            },
            ServiceEventType::HealthCheckPassed => push_str(&mut s, "health-ok"),
            ServiceEventType::HealthCheckFailed { consecutive } => {
                push_str(&mut s, "health-fail(");
                push_u64(&mut s, *consecutive as u64);
                push_str(&mut s, "x)");
            },
            ServiceEventType::ReadyCheckPassed => push_str(&mut s, "ready"),
            ServiceEventType::ReadyCheckFailed => push_str(&mut s, "not-ready"),
            ServiceEventType::Stopping => push_str(&mut s, "stopping"),
            ServiceEventType::Stopped { exit_status } => {
                push_str(&mut s, "stopped(");
                exit_status.push_to(&mut s);
                push_str(&mut s, ")");
            },
            ServiceEventType::Restarting { restart_count } => {
                push_str(&mut s, "restarting(#");
                push_u64(&mut s, *restart_count as u64);
                push_str(&mut s, ")");
            },
            ServiceEventType::DependencyWaiting { dependency } => {
                push_str(&mut s, "waiting(");
                push_str(&mut s, dependency.as_str());
                push_str(&mut s, ")");
            },
            ServiceEventType::DependencyMet { dependency } => {
                push_str(&mut s, "dep-met(");
                push_str(&mut s, dependency.as_str());
                push_str(&mut s, ")");
            },
            ServiceEventType::TimeoutKilled => push_str(&mut s, "timeout-killed"),
            ServiceEventType::CrashDetected { exit_status } => {
                push_str(&mut s, "crash(");
                exit_status.push_to(&mut s);
                push_str(&mut s, ")");
            },
            ServiceEventType::Enabled => push_str(&mut s, "enabled"),
            ServiceEventType::Disabled => push_str(&mut s, "disabled"),
        }
        assert(s@ =~= self.text());
        s
    }
}

// ---------------------------------------------------------------------------
// Shutdown orchestration
// ---------------------------------------------------------------------------

/// Shutdown type selection.
#[derive(Debug, Clone, Copy, PartialEq, Eq, Structural)]
pub enum ShutdownType {
    Poweroff,
    Reboot,
    Halt,
    Kexec,
}

impl ShutdownType {
    pub open spec fn text(self) -> Seq<char> {
        match self {
            ShutdownType::Poweroff => "poweroff"@,
            ShutdownType::Reboot => "reboot"@,
            ShutdownType::Halt => "halt"@,
            ShutdownType::Kexec => "kexec"@,
        }
    }

    /// The lower-case name of the shutdown type.
    pub fn to_string(&self) -> (s: String)
        ensures
            s@ == self.text(),
    {
        match self {
            ShutdownType::Poweroff => "poweroff".to_string(),
            ShutdownType::Reboot => "reboot".to_string(),
            ShutdownType::Halt => "halt".to_string(),
            ShutdownType::Kexec => "kexec".to_string(),
        }
    }
}

/// A shutdown plan describing the ordered steps to cleanly shut down.
#[derive(Debug)]
pub struct ShutdownPlan {
    pub shutdown_type: ShutdownType,
    pub steps: Vec<ShutdownStep>,
    pub timeout_ms: u64,
    pub wall_message: Option<String>,
}

/// An individual shutdown step.
#[derive(Debug)]
pub struct ShutdownStep {
    pub description: String,
    pub action: ShutdownAction,
    pub timeout_ms: u64,
    pub status: ShutdownStepStatus,
}

/// Actions performed during shutdown.
#[derive(Debug, PartialEq, Eq)]
pub enum ShutdownAction {
    /// Broadcast wall message to all terminals.
    WallMessage(String),
    /// Signal agents to save state and disconnect.
    NotifyAgents,
    /// Send a signal to a service, wait for graceful exit.
    StopService { name: String, signal: i32 },
    /// Force kill a service that didn't stop gracefully.
    ForceKillService { name: String },
    /// Flush filesystem buffers.
    SyncFilesystems,
    /// Unmount all filesystems.
    UnmountFilesystems,
    /// Deactivate swap.
    SwapOff,
    /// Deactivate LUKS volumes.
    CloseLuks,
    /// Final kernel call (reboot/poweroff/halt).
    KernelAction(ShutdownType),
}

/// Status of a shutdown step.
#[derive(Debug, PartialEq, Eq)]
pub enum ShutdownStepStatus {
    Pending,
    InProgress,
    Complete,
    Failed(String),
    Skipped,
}

impl ShutdownStepStatus {
    pub open spec fn text(self) -> Seq<char> {
        match self {
            ShutdownStepStatus::Pending => "pending"@,
            ShutdownStepStatus::InProgress => "in-progress"@,
            ShutdownStepStatus::Complete => "complete"@,
            ShutdownStepStatus::Failed(e) => "failed: "@ + e@,
            ShutdownStepStatus::Skipped => "skipped"@,
        }
    }

    /// The kebab-case name of the status; `failed: <error>` for failures.
    pub fn to_string(&self) -> (s: String)
        ensures
            s@ == self.text(),
    {
        match self {
            ShutdownStepStatus::Pending => "pending".to_string(),
            ShutdownStepStatus::InProgress => "in-progress".to_string(),
            ShutdownStepStatus::Complete => "complete".to_string(),
            ShutdownStepStatus::Failed(e) => {
                let mut s = owned("failed: ");
                push_str(&mut s, e.as_str());
                s
            },
            ShutdownStepStatus::Skipped => "skipped".to_string(),
        }
    }
}

/// Plan for switching between runlevels at runtime.
#[derive(Debug)]
pub struct RunlevelSwitchPlan {
    pub from: Runlevel,
    pub to: Runlevel,
    pub services_to_start: Vec<String>,
    pub services_to_stop: Vec<String>,
    pub drop_to_shell: bool,
}

/// What a runlevel switch did.
#[derive(Debug)]
pub struct RunlevelSwitchResult {
    pub from: Runlevel,
    pub to: Runlevel,
    pub stopped: Vec<String>,
    pub started: Vec<String>,
    pub errors: Vec<String>,
    pub drop_to_shell: bool,
}

// ---------------------------------------------------------------------------
// Health check results and tracking
// ---------------------------------------------------------------------------

/// Result of executing a single health check.
#[derive(Debug)]
pub struct HealthCheckResult {
    pub service: String,
    pub check_type: String,
    pub passed: bool,
    pub latency_ms: u64,
    pub message: Option<String>,
    /// When the check ran (ms since the epoch).
    pub checked_at: i64,
}

impl Clone for HealthCheckResult {
    fn clone(&self) -> (r: Self)
        ensures
            r == *self,
    {
        HealthCheckResult {
            service: self.service.clone(),
            check_type: self.check_type.clone(),
            passed: self.passed,
            latency_ms: self.latency_ms,
            message: match &self.message {
                Some(m) => Some(m.clone()),
                None => None,
            },
            checked_at: self.checked_at,
        }
    }
}

// ---------------------------------------------------------------------------
// Emergency shell
// ---------------------------------------------------------------------------

/// Crash handling decision for a service.
#[derive(Debug, PartialEq, Eq)]
pub enum CrashAction {
    /// Restart the service after the given delay.
    Restart { delay_ms: u64 },
    /// Don't restart; service exited normally or policy is Never.
    Ignore,
    /// Stop trying to restart; too many failures.
    GiveUp { reason: String },
}

// ---------------------------------------------------------------------------
// Safe command (injection-resistant)
// ---------------------------------------------------------------------------

/// A structured command representation to avoid shell injection.
#[derive(Debug, PartialEq, Eq)]
pub struct SafeCommand {
    pub binary: String,
    pub args: Vec<String>,
}

/// `binary` followed by each argument, separated by single spaces.
pub open spec fn command_line(binary: Seq<char>, args: Seq<Seq<char>>) -> Seq<char>
    decreases args.len(),
{
    if args.len() == 0 {
        binary
    } else {
        command_line(binary, args.drop_last()) + " "@ + args.last()
    }
}

impl SafeCommand {
    pub open spec fn arg_views(self) -> Seq<Seq<char>> {
        self.args@.map_values(|a: String| a@)
    }

    /// The command line for logging (NOT for shell execution).
    pub fn display(&self) -> (s: String)
        ensures
            s@ == command_line(self.binary@, self.arg_views()),
    {
        let mut s = owned(self.binary.as_str());
        let n = self.args.len();
        let mut i: usize = 0;
        while i < n
            invariant
                n == self.args@.len(),
                i <= n,
                s@ == command_line(self.binary@, self.arg_views().subrange(0, i as int)),
            decreases n - i,
        {
            push_str(&mut s, " ");
            push_str(&mut s, self.args[i].as_str());
            proof {
                let pre = self.arg_views().subrange(0, i as int);
                let post = self.arg_views().subrange(0, i + 1);
                assert(post.drop_last() =~= pre);
                assert(post.last() == self.args@[i as int]@);
            }
            i += 1;
        }
        assert(self.arg_views().subrange(0, n as int) =~= self.arg_views());
        s
    }

    /// Same as [`SafeCommand::display`].
    pub fn to_string(&self) -> (s: String)
        ensures
            s@ == command_line(self.binary@, self.arg_views()),
    {
        self.display()
    }
}

impl Clone for SafeCommand {
    fn clone(&self) -> (r: Self)
        ensures
            r.binary == self.binary,
            r.args@ == self.args@,
    {
        let args = self.args.clone();
        assert(args@ =~= self.args@);
        SafeCommand { binary: self.binary.clone(), args }
    }
}

} // verus!

verus! {

impl Clone for SocketSpec {
    fn clone(&self) -> (r: Self)
        ensures
            r == *self,
    {
        SocketSpec { address: self.address.clone(), port: self.port, socket_type: self.socket_type }
    }
}

impl Clone for SocketActivationConfig {
    fn clone(&self) -> (r: Self)
        ensures
            r.sockets@ == self.sockets@,
    {
        let sockets = self.sockets.clone();
        assert(sockets@ =~= self.sockets@);
        SocketActivationConfig { sockets }
    }
}

impl Clone for LandlockRule {
    fn clone(&self) -> (r: Self)
        ensures
            r == *self,
    {
        LandlockRule { path: self.path.clone(), access: self.access }
    }
}

impl Clone for LandlockConfig {
    fn clone(&self) -> (r: Self)
        ensures
            r.rules@ == self.rules@,
    {
        let rules = self.rules.clone();
        assert(rules@ =~= self.rules@);
        LandlockConfig { rules }
    }
}

impl Clone for CapabilityConfig {
    fn clone(&self) -> (r: Self)
        ensures
            r.drop@ == self.drop@,
    {
        let drop = self.drop.clone();
        assert(drop@ =~= self.drop@);
        CapabilityConfig { drop }
    }
}

/// Two seccomp configurations with the same rules.
pub open spec fn same_seccomp(a: SeccompConfig, b: SeccompConfig) -> bool {
    match (a, b) {
        (SeccompConfig::Basic, SeccompConfig::Basic) => true,
        (
            SeccompConfig::Custom { allow: a1, deny: d1 },
            SeccompConfig::Custom { allow: a2, deny: d2 },
        ) => a1@ == a2@ && d1@ == d2@,
        _ => false,
    }
}

impl Clone for SeccompConfig {
    fn clone(&self) -> (r: Self)
        ensures
            same_seccomp(r, *self),
    {
        match self {
            SeccompConfig::Basic => SeccompConfig::Basic,
            SeccompConfig::Custom { allow, deny } => {
                let a = allow.clone();
                assert(a@ =~= allow@);
                let n = deny.len();
                let mut d: Vec<(String, SeccompAction)> = Vec::new();
                let mut i: usize = 0;
                while i < n
                    invariant
                        n == deny@.len(),
                        i <= n,
                        d@ =~= deny@.subrange(0, i as int),
                    decreases n - i,
                {
                    d.push((deny[i].0.clone(), deny[i].1));
                    i += 1;
                }
                assert(d@ =~= deny@);
                SeccompConfig::Custom { allow: a, deny: d }
            },
        }
    }
}

/// Two optional configurations of which neither or both are present, and
/// the same when present.
pub open spec fn same_opt_sockets(a: Option<SocketActivationConfig>, b: Option<SocketActivationConfig>) -> bool {
    match (a, b) {
        (None, None) => true,
        (Some(x), Some(y)) => x.sockets@ == y.sockets@,
        _ => false,
    }
}

pub open spec fn same_opt_seccomp(a: Option<SeccompConfig>, b: Option<SeccompConfig>) -> bool {
    match (a, b) {
        (None, None) => true,
        (Some(x), Some(y)) => same_seccomp(x, y),
        _ => false,
    }
}

pub open spec fn same_opt_landlock(a: Option<LandlockConfig>, b: Option<LandlockConfig>) -> bool {
    match (a, b) {
        (None, None) => true,
        (Some(x), Some(y)) => x.rules@ == y.rules@,
        _ => false,
    }
}

pub open spec fn same_opt_caps(a: Option<CapabilityConfig>, b: Option<CapabilityConfig>) -> bool {
    match (a, b) {
        (None, None) => true,
        (Some(x), Some(y)) => x.drop@ == y.drop@,
        _ => false,
    }
}

/// Two service definitions that agree in every field (lists and maps by
/// their contents).
pub open spec fn same_def(a: ServiceDefinition, b: ServiceDefinition) -> bool {
    &&& a.name == b.name
    &&& a.description == b.description
    &&& a.binary_path == b.binary_path
    &&& a.args@ == b.args@
    &&& a.environment.items() == b.environment.items()
    &&& a.depends_on@ == b.depends_on@
    &&& a.required_for_modes@ == b.required_for_modes@
    &&& a.restart_policy == b.restart_policy
    &&& a.restart_config == b.restart_config
    &&& a.health_check == b.health_check
    &&& a.ready_check == b.ready_check
    &&& a.enabled == b.enabled
    &&& a.service_type == b.service_type
    &&& a.environment_files@ == b.environment_files@
    &&& a.pid_file == b.pid_file
    &&& a.resource_limits == b.resource_limits
    &&& a.log_config == b.log_config
    &&& same_opt_sockets(a.socket_activation, b.socket_activation)
    &&& same_opt_seccomp(a.seccomp, b.seccomp)
    &&& same_opt_landlock(a.landlock, b.landlock)
    &&& same_opt_caps(a.capabilities, b.capabilities)
}

impl Clone for ServiceDefinition {
    fn clone(&self) -> (r: Self)
        ensures
            same_def(r, *self),
    {
        let args = self.args.clone();
        let depends_on = self.depends_on.clone();
        let required_for_modes = self.required_for_modes.clone();
        let environment_files = self.environment_files.clone();
        assert(args@ =~= self.args@);
        assert(depends_on@ =~= self.depends_on@);
        assert(required_for_modes@ =~= self.required_for_modes@);
        assert(environment_files@ =~= self.environment_files@);
        ServiceDefinition {
            name: self.name.clone(),
            description: self.description.clone(),
            binary_path: self.binary_path.clone(),
            args,
            environment: self.environment.clone(),
            depends_on,
            required_for_modes,
            restart_policy: self.restart_policy,
            restart_config: self.restart_config,
            health_check: match &self.health_check {
                Some(h) => Some(h.clone()),
                None => None,
            },
            ready_check: match &self.ready_check {
                Some(h) => Some(h.clone()),
                None => None,
            },
            enabled: self.enabled,
            service_type: self.service_type,
            environment_files,
            pid_file: match &self.pid_file {
                Some(p) => Some(p.clone()),
                None => None,
            },
            resource_limits: self.resource_limits,
            log_config: self.log_config,
            socket_activation: match &self.socket_activation {
                Some(c) => Some(c.clone()),
                None => None,
            },
            seccomp: match &self.seccomp {
                Some(c) => Some(c.clone()),
                None => None,
            },
            landlock: match &self.landlock {
                Some(c) => Some(c.clone()),
                None => None,
            },
            capabilities: match &self.capabilities {
                Some(c) => Some(c.clone()),
                None => None,
            },
        }
    }
}

} // verus!

verus! {

// ---------------------------------------------------------------------------
// Service targets
// ---------------------------------------------------------------------------

/// A group of related services that start and stop together, like a
/// systemd target.
#[derive(Debug)]
pub struct ServiceTarget {
    pub name: String,
    pub description: String,
    /// Services that must be running for the target to be met.
    pub requires: Vec<String>,
    /// Services that should be running but are not fatal if missing.
    pub wants: Vec<String>,
    /// Runlevels where this target is active.
    pub active_in: Vec<Runlevel>,
}

/// The characters of each string.
pub open spec fn string_views(s: Seq<String>) -> Seq<Seq<char>> {
    s.map_values(|x: String| x@)
}

/// One target: name, required services, wanted services, runlevels.
pub type TargetEntry = (Seq<char>, Seq<Seq<char>>, Seq<Seq<char>>, Seq<Runlevel>);

/// The predefined targets.
pub open spec fn default_targets() -> Seq<TargetEntry> {
    seq![
        (
            "basic"@,
            seq!["eudev"@, "dbus"@, "syslogd"@],
            seq![],
            seq![Runlevel::Rescue, Runlevel::Console, Runlevel::Graphical, Runlevel::Container],
        ),
        ("network"@, seq!["networkmanager"@], seq!["nftables"@, "openssh"@], seq![Runlevel::Console, Runlevel::Graphical]),
        (
            "agnos-core"@,
            seq!["daimon"@],
            seq!["hoosh"@, "aegis"@],
            seq![Runlevel::Console, Runlevel::Graphical, Runlevel::Container],
        ),
        ("graphical"@, seq!["aethersafha"@], seq!["pipewire"@, "agnoshi"@], seq![Runlevel::Graphical]),
        ("edge"@, seq!["daimon"@], seq!["aegis"@], seq![Runlevel::Edge]),
    ]
}

/// `t` is the target described by `e`.
pub open spec fn target_is(t: ServiceTarget, e: TargetEntry) -> bool {
    &&& t.name@ == e.0
    &&& string_views(t.requires@) == e.1
    &&& string_views(t.wants@) == e.2
    &&& t.active_in@ == e.3
}

/// Owned copies of string literals.
fn strings(v: &[&str]) -> (r: Vec<String>)
    ensures
        r@.len() == v@.len(),
        forall|k: int| 0 <= k < v@.len() ==> (#[trigger] r@[k])@ == v@[k]@,
{
    let mut r: Vec<String> = Vec::new();
    let mut i: usize = 0;
    while i < v.len()
        invariant
            i <= v@.len(),
            r@.len() == i,
            forall|k: int| 0 <= k < i ==> (#[trigger] r@[k])@ == v@[k]@,
        decreases v@.len() - i,
    {
        r.push(owned(v[i]));
        i += 1;
    }
    r
}

impl ServiceTarget {
    fn make(name: &str, description: &str, needed: &[&str], wanted: &[&str], active_in: Vec<Runlevel>) -> (t: Self)
        ensures
            t.name@ == name@,
            t.description@ == description@,
            t.requires@.len() == needed@.len(),
            forall|k: int| 0 <= k < needed@.len() ==> (#[trigger] t.requires@[k])@ == needed@[k]@,
            t.wants@.len() == wanted@.len(),
            forall|k: int| 0 <= k < wanted@.len() ==> (#[trigger] t.wants@[k])@ == wanted@[k]@,
            t.active_in == active_in,
    {
        ServiceTarget {
            name: name.to_string(),
            description: description.to_string(),
            requires: strings(needed),
            wants: strings(wanted),
            active_in,
        }
    }

    /// The predefined targets: basic, network, agnos-core, graphical, edge.
    pub fn defaults() -> (v: Vec<Self>)
        ensures
            v@.len() == default_targets().len(),
            forall|i: int| 0 <= i < v@.len() ==> #[trigger] target_is(v@[i], default_targets()[i]),
    {
        let basic = Self::make(
            "basic",
            "Basic system services",
            &["eudev", "dbus", "syslogd"],
            &[],
            vec![Runlevel::Rescue, Runlevel::Console, Runlevel::Graphical, Runlevel::Container],
        );
        let network = Self::make(
            "network",
            "Network connectivity",
            &["networkmanager"],
            &["nftables", "openssh"],
            vec![Runlevel::Console, Runlevel::Graphical],
        );
        let core = Self::make(
            "agnos-core",
            "AGNOS agent runtime and LLM gateway",
            &["daimon"],
            &["hoosh", "aegis"],
            vec![Runlevel::Console, Runlevel::Graphical, Runlevel::Container],
        );
        let mut g = Vec::new();
        g.push(Runlevel::Graphical);
        let graphical = Self::make(
            "graphical",
            "Desktop environment",
            &["aethersafha"],
            &["pipewire", "agnoshi"],
            g,
        );
        let mut e = Vec::new();
        e.push(Runlevel::Edge);
        let edge = Self::make(
            "edge",
            "Edge device — minimal agent runtime",
            &["daimon"],
            &["aegis"],
            e,
        );
        assert(basic.active_in@ =~= default_targets()[0].3);
        assert(graphical.active_in@ =~= default_targets()[3].3);
        assert(edge.active_in@ =~= default_targets()[4].3);
        assert(string_views(basic.requires@) =~= default_targets()[0].1);
        assert(string_views(basic.wants@) =~= default_targets()[0].2);
        assert(string_views(network.requires@) =~= default_targets()[1].1);
        assert(string_views(network.wants@) =~= default_targets()[1].2);
        assert(string_views(core.requires@) =~= default_targets()[2].1);
        assert(string_views(core.wants@) =~= default_targets()[2].2);
        assert(string_views(graphical.requires@) =~= default_targets()[3].1);
        assert(string_views(graphical.wants@) =~= default_targets()[3].2);
        assert(string_views(edge.requires@) =~= default_targets()[4].1);
        assert(string_views(edge.wants@) =~= default_targets()[4].2);
        let v = vec![basic, network, core, graphical, edge];
        assert(target_is(v@[0], default_targets()[0]));
        assert(target_is(v@[1], default_targets()[1]));
        assert(target_is(v@[2], default_targets()[2]));
        assert(target_is(v@[3], default_targets()[3]));
        assert(target_is(v@[4], default_targets()[4]));
        v
    }

    /// Whether this target is active in `runlevel`.
    pub fn is_active_in(&self, runlevel: Runlevel) -> (b: bool)
        ensures
            b == self.active_in@.contains(runlevel),
    {
        let n = self.active_in.len();
        let mut i: usize = 0;
        while i < n
            invariant
                n == self.active_in@.len(),
                i <= n,
                forall|k: int| 0 <= k < i ==> self.active_in@[k] != runlevel,
            decreases n - i,
        {
            if self.active_in[i] == runlevel {
                return true;
            }
            i += 1;
        }
        false
    }

    /// All services of this target: the required ones, then the wanted ones.
    pub fn all_services(&self) -> (v: Vec<&str>)
        ensures
            v@.len() == self.requires@.len() + self.wants@.len(),
            forall|k: int| 0 <= k < v@.len() ==> (#[trigger] v@[k])@ == (self.requires@ + self.wants@)[k]@,
    {
        let mut v: Vec<&str> = Vec::new();
        let ghost all = self.requires@ + self.wants@;
        let n = self.requires.len();
        let mut i: usize = 0;
        while i < n
            invariant
                n == self.requires@.len(),
                all == self.requires@ + self.wants@,
                i <= n,
                v@.len() == i,
                forall|k: int| 0 <= k < i ==> (#[trigger] v@[k])@ == all[k]@,
            decreases n - i,
        {
            v.push(self.requires[i].as_str());
            i += 1;
        }
        let m = self.wants.len();
        let mut j: usize = 0;
        while j < m
            invariant
                n == self.requires@.len(),
                m == self.wants@.len(),
                all == self.requires@ + self.wants@,
                j <= m,
                v@.len() == n + j,
                forall|k: int| 0 <= k < n + j ==> (#[trigger] v@[k])@ == all[k]@,
            decreases m - j,
        {
            v.push(self.wants[j].as_str());
            j += 1;
        }
        v
    }
}

// ---------------------------------------------------------------------------
// Health failure tracking
// ---------------------------------------------------------------------------

/// Counts consecutive health check failures per service.
#[derive(Debug)]
pub struct HealthTracker {
    failures: NameMap<u32>,
}

impl HealthTracker {
    /// The consecutive failure count of `service` (0 when untracked).
    pub closed spec fn count(&self, service: Seq<char>) -> nat {
        match lookup(self.failures.items(), service) {
            Some(c) => c as nat,
            None => 0,
        }
    }

    /// A tracker with no failures.
    pub fn new() -> (t: Self)
        ensures
            forall|s: Seq<char>| #[trigger] t.count(s) == 0,
    {
        HealthTracker { failures: NameMap::new() }
    }

    /// Records one check of `service`. A pass clears its failures; a failure
    /// adds one. Returns whether the service should be restarted: it failed
    /// and now has at least `threshold` consecutive failures.
    pub fn record(&mut self, service: &str, passed: bool, threshold: u32) -> (restart: bool)
        requires
            passed || old(self).count(service@) < u32::MAX,
        ensures
            final(self).count(service@) == (if passed {
                0
            } else {
                old(self).count(service@) + 1
            }),
            restart == (!passed && final(self).count(service@) >= threshold),
            forall|s: Seq<char>| s != service@ ==> #[trigger] final(self).count(s) == old(self).count(s),
    {
        if passed {
            self.failures.remove(service);
            false
        } else {
            let current: u32 = match self.failures.get(service) {
                Some(c) => *c,
                None => 0,
            };
            let next = current + 1;
            self.failures.insert(service.to_string(), next);
            next >= threshold
        }
    }

    /// The consecutive failure count of `service`.
    pub fn failure_count(&self, service: &str) -> (n: u32)
        ensures
            n == self.count(service@),
    {
        match self.failures.get(service) {
            Some(c) => *c,
            None => 0,
        }
    }

    /// Forgets the failures of `service` (e.g. after a restart).
    pub fn reset(&mut self, service: &str)
        ensures
            final(self).count(service@) == 0,
            forall|s: Seq<char>| s != service@ ==> #[trigger] final(self).count(s) == old(self).count(s),
    {
        self.failures.remove(service);
    }
}

// ---------------------------------------------------------------------------
// Process spawn specification
// ---------------------------------------------------------------------------

/// Everything needed to spawn a service process.
#[derive(Debug)]
pub struct ProcessSpec {
    pub binary: String,
    pub args: Vec<String>,
    pub environment: StringMap,
    pub working_dir: Option<String>,
    pub stdout_log: Option<String>,
    pub stderr_log: Option<String>,
    pub uid: Option<u32>,
    pub gid: Option<u32>,
    /// Resource limits applied after spawn via `prlimit(1)`.
    pub resource_limits: Option<ResourceLimits>,
    /// Log rotation configuration.
    pub log_config: Option<LogConfig>,
}

/// The log file of service `name` with suffix `ext`.
pub open spec fn log_path(name: Seq<char>, ext: Seq<char>) -> Seq<char> {
    "/var/log/agnos/services/"@ + name + ext
}

/// `p` is the spawn specification of definition `d`.
pub open spec fn spawn_spec_of(p: ProcessSpec, d: ServiceDefinition) -> bool {
    &&& p.binary == d.binary_path
    &&& p.args@ == d.args@
    &&& p.environment.items() == d.environment.items()
    &&& p.working_dir is None
    &&& p.stdout_log matches Some(l) && l@ == log_path(d.name@, ".log"@)
    &&& p.stderr_log matches Some(l) && l@ == log_path(d.name@, ".err"@)
    &&& p.uid is None
    &&& p.gid is None
    &&& p.resource_limits == d.resource_limits
    &&& p.log_config == d.log_config
}

impl ProcessSpec {
    /// The spawn specification of a service: its binary, arguments and
    /// environment, logs under `/var/log/agnos/services/<name>.log` and
    /// `.err`, its resource limits and log rotation, no working directory
    /// and no user or group change.
    pub fn from_service(def: &ServiceDefinition) -> (p: Self)
        ensures
            spawn_spec_of(p, *def),
    {
        let args = def.args.clone();
        assert(args@ =~= def.args@);
        let mut out = owned("/var/log/agnos/services/");
        push_str(&mut out, def.name.as_str());
        push_str(&mut out, ".log");
        let mut err = owned("/var/log/agnos/services/");
        push_str(&mut err, def.name.as_str());
        push_str(&mut err, ".err");
        ProcessSpec {
            binary: def.binary_path.clone(),
            args,
            environment: def.environment.clone(),
            working_dir: None,
            stdout_log: Some(out),
            stderr_log: Some(err),
            uid: None,
            gid: None,
            resource_limits: def.resource_limits,
            log_config: def.log_config,
        }
    }
}

// ---------------------------------------------------------------------------
// Emergency shell
// ---------------------------------------------------------------------------

/// Configuration of the emergency recovery shell.
#[derive(Debug)]
pub struct EmergencyShellConfig {
    /// Path to the shell binary.
    pub shell_path: String,
    /// Environment variables of the shell.
    pub environment: StringMap,
    /// Message displayed before dropping to the shell.
    pub banner: String,
    /// Whether to require a password before granting access.
    pub require_auth: bool,
    /// Hex-encoded SHA-256 hash of the password (when `require_auth`).
    pub auth_password_hash: Option<String>,
}

/// The banner shown when entering the emergency shell.
pub open spec fn emergency_banner() -> Seq<char> {
    "\n========================================\n  AGNOS Emergency Shell\n========================================\n\nThe system has entered emergency mode.\nUse 'argonaut status' to check service state.\nUse 'argonaut start <service>' to start services.\nUse 'exit' to continue boot or 'reboot' to restart.\n\n"@
}

impl Default for EmergencyShellConfig {
    fn default() -> (c: Self)
        ensures
            c.shell_path@ == "/usr/bin/agnoshi"@,
            c.banner@ == emergency_banner(),
            !c.require_auth,
            c.auth_password_hash is None,
            lookup(c.environment.items(), "HOME"@) matches Some(v) && v@ == "/root"@,
            lookup(c.environment.items(), "TERM"@) matches Some(v) && v@ == "linux"@,
            lookup(c.environment.items(), "PATH"@) matches Some(v) && v@ == "/usr/sbin:/usr/bin:/sbin:/bin"@,
            lookup(c.environment.items(), "SHELL"@) matches Some(v) && v@ == "/usr/bin/agnoshi"@,
            c.environment.items().len() == 4,
    {
        proof {
            reveal_strlit("HOME");
            reveal_strlit("TERM");
            reveal_strlit("PATH");
            reveal_strlit("SHELL");
            assert("HOME"@[0] != "TERM"@[0]);
            assert("HOME"@[0] != "PATH"@[0]);
            assert("HOME"@[0] != "SHELL"@[0]);
            assert("TERM"@[0] != "PATH"@[0]);
            assert("TERM"@[0] != "SHELL"@[0]);
            assert("PATH"@[0] != "SHELL"@[0]);
        }
        let mut env: StringMap = NameMap::new();
        env.insert("HOME".to_string(), "/root".to_string());
        assert(env.items().len() == 1);
        assert(lookup(env.items(), "TERM"@) is None);
        env.insert("TERM".to_string(), "linux".to_string());
        assert(env.items().len() == 2);
        assert(lookup(env.items(), "PATH"@) is None);
        env.insert("PATH".to_string(), "/usr/sbin:/usr/bin:/sbin:/bin".to_string());
        assert(env.items().len() == 3);
        assert(lookup(env.items(), "SHELL"@) is None);
        env.insert("SHELL".to_string(), "/usr/bin/agnoshi".to_string());
        EmergencyShellConfig {
            shell_path: "/usr/bin/agnoshi".to_string(),
            environment: env,
            banner: "\n========================================\n  AGNOS Emergency Shell\n========================================\n\nThe system has entered emergency mode.\nUse 'argonaut status' to check service state.\nUse 'argonaut start <service>' to start services.\nUse 'exit' to continue boot or 'reboot' to restart.\n\n".to_string(),
            require_auth: false,
            auth_password_hash: None,
        }
    }
}

} // verus!
