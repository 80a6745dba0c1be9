//! Default service definitions, the optional-service catalogue, and the
//! registration of the default and configured services.

use vstd::prelude::*;

use crate::deps::{all_defined, dep_before, lemma_listed_order_starts_all, listed_in_order, order_error, views, DependencyError};
use crate::init::{fresh, fresh_service, ArgonautInit};
use crate::boot::boot_sequence_spec;
use crate::namemap::{lookup, NameMap};
use crate::envfile::{env_is, var_is};
use crate::process::ProcessTable;
use crate::types::{
    same_def, ArgonautConfig, BootMode, HealthCheck, HealthCheckType, ManagedService, ReadyCheck, RestartConfig,
    RestartPolicy, ServiceDefinition, ServiceType, StringMap,
};

verus! {

/// What a check probes: its kind (`http-get`, `tcp-connect`, `command` or
/// `process-alive`), its target (URL, host or command line) and its port.
pub type ProbeSpec = (Seq<char>, Seq<char>, u16);

/// A periodic health check: probe, interval, timeout and retries.
pub type HealthSpec = (ProbeSpec, u64, u64, u32);

/// A readiness check: probe, timeout, retries and delay between retries.
pub type ReadySpec = (ProbeSpec, u64, u32, u64);

/// What a default service runs: description, binary, arguments,
/// environment, health check and readiness check.
pub type DetailSpec = (
    Seq<char>,
    Seq<char>,
    Seq<Seq<char>>,
    Map<Seq<char>, Seq<char>>,
    Option<HealthSpec>,
    Option<ReadySpec>,
);

/// One default service: its name, what it depends on, its restart policy,
/// the boot modes that require it, and what it runs.
pub type DefaultEntry = (Seq<char>, Seq<Seq<char>>, RestartPolicy, Seq<BootMode>, DetailSpec);

/// An HTTP GET of `url`.
pub open spec fn http(url: Seq<char>) -> ProbeSpec {
    ("http-get"@, url, 0)
}

/// A TCP connect to `127.0.0.1:port`.
pub open spec fn local_tcp(port: u16) -> ProbeSpec {
    ("tcp-connect"@, "127.0.0.1"@, port)
}

/// A check that the process is alive.
pub open spec fn alive() -> ProbeSpec {
    ("process-alive"@, seq![], 0)
}

/// `t` is the probe `p`.
pub open spec fn probe_is(t: HealthCheckType, p: ProbeSpec) -> bool {
    match t {
        HealthCheckType::HttpGet(u) => p.0 == "http-get"@ && p.1 == u@,
        HealthCheckType::TcpConnect(h, port) => p.0 == "tcp-connect"@ && p.1 == h@ && p.2 == port,
        HealthCheckType::Command(c) => p.0 == "command"@ && p.1 == c@,
        HealthCheckType::ProcessAlive => p.0 == "process-alive"@,
    }
}

/// `h` is the health check `s`, or both are absent.
pub open spec fn health_is(h: Option<HealthCheck>, s: Option<HealthSpec>) -> bool {
    match s {
        Some(s) => h matches Some(c) && probe_is(c.check_type, s.0) && c.interval_ms == s.1
            && c.timeout_ms == s.2 && c.retries == s.3,
        None => h is None,
    }
}

/// `r` is the readiness check `s`, or both are absent.
pub open spec fn ready_is(r: Option<ReadyCheck>, s: Option<ReadySpec>) -> bool {
    match s {
        Some(s) => r matches Some(c) && probe_is(c.check_type, s.0) && c.timeout_ms == s.1
            && c.retries == s.2 && c.retry_delay_ms == s.3,
        None => r is None,
    }
}

pub open spec fn postgres_entry() -> DefaultEntry {
    (
        "postgres"@,
        seq![],
        RestartPolicy::OnFailure,
        seq![BootMode::Server, BootMode::Desktop],
        (
            "PostgreSQL 17 database server"@,
            "/usr/lib/postgresql/17/bin/postgres"@,
            seq![
                "-D"@,
                "/var/lib/postgresql/data"@,
                "-c"@,
                "config_file=/etc/postgresql/postgresql.conf.agnos"@,
            ],
            Map::empty().insert("PGDATA"@, "/var/lib/postgresql/data"@),
            Some((local_tcp(5432), 15_000, 2000, 3)),
            Some((local_tcp(5432), 10_000, 15, 500)),
        ),
    )
}

pub open spec fn redis_entry() -> DefaultEntry {
    (
        "redis"@,
        seq![],
        RestartPolicy::Always,
        seq![BootMode::Server, BootMode::Desktop],
        (
            "Redis 7 in-memory cache"@,
            "/usr/bin/redis-server"@,
            seq!["/etc/redis/redis.conf"@],
            Map::empty(),
            Some((local_tcp(6379), 10_000, 1000, 3)),
            Some((local_tcp(6379), 5000, 10, 200)),
        ),
    )
}

/// The agent runtime outside edge mode, depending on `deps`.
pub open spec fn daimon_entry(deps: Seq<Seq<char>>) -> DefaultEntry {
    (
        "daimon"@,
        deps,
        RestartPolicy::Always,
        seq![BootMode::Minimal, BootMode::Server, BootMode::Desktop],
        (
            "Daimon agent orchestrator"@,
            "/usr/lib/agnos/agent_runtime"@,
            seq!["--port"@, "8090"@],
            Map::empty(),
            Some((http("http://127.0.0.1:8090/v1/health"@), 10_000, 2000, 3)),
            Some((local_tcp(8090), 5000, 10, 200)),
        ),
    )
}

/// The agent runtime in edge mode.
pub open spec fn edge_daimon_entry() -> DefaultEntry {
    (
        "daimon"@,
        seq![],
        RestartPolicy::Always,
        seq![BootMode::Edge],
        (
            "Daimon agent orchestrator (edge mode)"@,
            "/usr/lib/agnos/agent_runtime"@,
            seq!["--port"@, "8090"@, "--mode"@, "edge"@],
            Map::empty().insert("AGNOS_EDGE_MODE"@, "1"@).insert("AGNOS_READONLY_ROOTFS"@, "1"@).insert(
                "AGNOS_EDGE_LUKS"@,
                "1"@,
            ),
            Some((http("http://127.0.0.1:8090/v1/health"@), 10_000, 2000, 3)),
            Some((local_tcp(8090), 3000, 5, 200)),
        ),
    )
}

pub open spec fn gateway_entry() -> DefaultEntry {
    (
        "llm-gateway"@,
        seq!["daimon"@],
        RestartPolicy::OnFailure,
        seq![BootMode::Server, BootMode::Desktop],
        (
            "Hoosh LLM inference gateway"@,
            "/usr/lib/agnos/llm_gateway"@,
            seq!["--port"@, "8088"@],
            Map::empty(),
            Some((http("http://127.0.0.1:8088/health"@), 15_000, 2000, 3)),
            Some((local_tcp(8088), 5000, 10, 200)),
        ),
    )
}

pub open spec fn synapse_entry() -> DefaultEntry {
    (
        "synapse"@,
        seq!["daimon"@, "llm-gateway"@],
        RestartPolicy::OnFailure,
        seq![BootMode::Server, BootMode::Desktop],
        (
            "Synapse LLM management and training service"@,
            "/usr/lib/synapse/bin/synapse"@,
            seq!["serve"@, "--config"@, "/etc/synapse/synapse.toml"@],
            Map::empty().insert("SYNAPSE_DATA_DIR"@, "/var/lib/synapse"@).insert(
                "SYNAPSE_MODEL_DIR"@,
                "/var/lib/synapse/models"@,
            ),
            Some((http("http://127.0.0.1:8080/health"@), 15_000, 3000, 3)),
            Some((local_tcp(8080), 10_000, 15, 500)),
        ),
    )
}

pub open spec fn compositor_entry() -> DefaultEntry {
    (
        "aethersafha"@,
        seq!["daimon"@],
        RestartPolicy::Always,
        seq![BootMode::Desktop],
        (
            "Wayland compositor"@,
            "/usr/lib/agnos/aethersafha"@,
            seq![],
            Map::empty().insert("XDG_SESSION_TYPE"@, "wayland"@),
            Some((alive(), 5000, 1000, 2)),
            None,
        ),
    )
}

pub open spec fn shell_entry() -> DefaultEntry {
    (
        "agnoshi"@,
        seq!["daimon"@, "aethersafha"@],
        RestartPolicy::OnFailure,
        seq![BootMode::Desktop],
        (
            "AI terminal shell"@,
            "/usr/lib/agnos/agnoshi"@,
            seq![],
            Map::empty(),
            Some((alive(), 10_000, 1000, 3)),
            None,
        ),
    )
}

/// The optional digital audio workstation, required by no boot mode.
pub open spec fn shruti_entry() -> DefaultEntry {
    (
        "shruti"@,
        seq!["daimon"@, "aethersafha"@],
        RestartPolicy::OnFailure,
        seq![],
        (
            "Shruti digital audio workstation"@,
            "/usr/local/bin/shruti"@,
            seq![],
            Map::empty().insert("SHRUTI_DATA_DIR"@, "/home/${USER}/.local/share/shruti"@).insert(
                "PIPEWIRE_RUNTIME_DIR"@,
                "/run/user/1000"@,
            ),
            Some((alive(), 10_000, 1000, 3)),
            None,
        ),
    )
}

/// The default services of `mode`, in the order they are listed.
pub open spec fn default_table(mode: BootMode) -> Seq<DefaultEntry> {
    match mode {
        BootMode::Recovery => seq![],
        BootMode::Edge => seq![edge_daimon_entry()],
        BootMode::Minimal => seq![daimon_entry(seq![])],
        BootMode::Server => seq![
            postgres_entry(),
            redis_entry(),
            daimon_entry(seq!["postgres"@, "redis"@]),
            gateway_entry(),
            synapse_entry(),
        ],
        BootMode::Desktop => seq![
            postgres_entry(),
            redis_entry(),
            daimon_entry(seq!["postgres"@, "redis"@]),
            gateway_entry(),
            synapse_entry(),
            compositor_entry(),
            shell_entry(),
        ],
    }
}

/// `d` is the built-in definition described by `e`.
pub open spec fn matches_entry(d: ServiceDefinition, e: DefaultEntry) -> bool {
    &&& builtin(d, e.0, e.1, e.2)
    &&& d.required_for_modes@ == e.3
    &&& d.description@ == e.4.0
    &&& d.binary_path@ == e.4.1
    &&& views(d.args@) == e.4.2
    &&& env_is(d.environment, e.4.3)
    &&& health_is(d.health_check, e.4.4)
    &&& ready_is(d.ready_check, e.4.5)
}

/// `v` lists the default services of `mode`.
pub open spec fn default_services_spec(mode: BootMode, v: Seq<ServiceDefinition>) -> bool {
    &&& v.len() == default_table(mode).len()
    &&& forall|i: int| 0 <= i < v.len() ==> #[trigger] matches_entry(v[i], default_table(mode)[i])
}

/// A definition with the settings every built-in service shares: enabled,
/// a simple process, default restart limits, and no environment files, PID
/// file, resource limits, log rotation or sandboxing.
pub open spec fn plain_def(d: ServiceDefinition) -> bool {
    &&& d.enabled
    &&& d.service_type == ServiceType::Simple
    &&& d.restart_config == RestartConfig { max_restarts: 5, base_delay_ms: 1000, max_delay_ms: 30_000 }
    &&& d.environment_files@.len() == 0
    &&& d.pid_file is None
    &&& d.resource_limits is None
    &&& d.log_config is None
    &&& d.socket_activation is None
    &&& d.seccomp is None
    &&& d.landlock is None
    &&& d.capabilities is None
}

/// A built-in definition of these name, binary, dependencies, modes and
/// restart policy.
fn base_def(
    name: &str,
    description: &str,
    binary_path: &str,
    args: Vec<String>,
    environment: StringMap,
    depends_on: Vec<String>,
    required_for_modes: Vec<BootMode>,
    restart_policy: RestartPolicy,
    health_check: Option<HealthCheck>,
    ready_check: Option<ReadyCheck>,
) -> (d: ServiceDefinition)
    ensures
        d.name@ == name@,
        d.description@ == description@,
        d.binary_path@ == binary_path@,
        d.args == args,
        d.environment == environment,
        d.depends_on == depends_on,
        d.required_for_modes == required_for_modes,
        d.restart_policy == restart_policy,
        d.health_check == health_check,
        d.ready_check == ready_check,
        plain_def(d),
{
    ServiceDefinition {
        name: name.to_string(),
        description: description.to_string(),
        binary_path: binary_path.to_string(),
        args,
        environment,
        depends_on,
        required_for_modes,
        restart_policy,
        restart_config: RestartConfig::default(),
        health_check,
        ready_check,
        enabled: true,
        service_type: ServiceType::Simple,
        environment_files: Vec::new(),
        pid_file: None,
        resource_limits: None,
        log_config: None,
        socket_activation: None,
        seccomp: None,
        landlock: None,
        capabilities: None,
    }
}

/// A periodic HTTP GET of `url`.
fn http_health(url: &str, interval_ms: u64, timeout_ms: u64, retries: u32) -> (h: Option<HealthCheck>)
    ensures
        health_is(h, Some((http(url@), interval_ms, timeout_ms, retries))),
{
    Some(HealthCheck { check_type: HealthCheckType::HttpGet(url.to_string()), interval_ms, timeout_ms, retries })
}

/// A periodic TCP connect to `127.0.0.1:port`.
fn tcp_health(port: u16, interval_ms: u64, timeout_ms: u64, retries: u32) -> (h: Option<HealthCheck>)
    ensures
        health_is(h, Some((local_tcp(port), interval_ms, timeout_ms, retries))),
{
    Some(
        HealthCheck {
            check_type: HealthCheckType::TcpConnect("127.0.0.1".to_string(), port),
            interval_ms,
            timeout_ms,
            retries,
        },
    )
}

/// A periodic check that the process is alive.
fn alive_health(interval_ms: u64, timeout_ms: u64, retries: u32) -> (h: Option<HealthCheck>)
    ensures
        health_is(h, Some((alive(), interval_ms, timeout_ms, retries))),
{
    Some(HealthCheck { check_type: HealthCheckType::ProcessAlive, interval_ms, timeout_ms, retries })
}

/// A TCP readiness check against `127.0.0.1:port`.
fn tcp_ready(port: u16, timeout_ms: u64, retries: u32, retry_delay_ms: u64) -> (r: Option<ReadyCheck>)
    ensures
        ready_is(r, Some((local_tcp(port), timeout_ms, retries, retry_delay_ms))),
{
    Some(
        ReadyCheck {
            check_type: HealthCheckType::TcpConnect("127.0.0.1".to_string(), port),
            timeout_ms,
            retries,
            retry_delay_ms,
        },
    )
}

/// A list of one boot mode.
fn one_mode(m: BootMode) -> (v: Vec<BootMode>)
    ensures
        v@ == seq![m],
{
    let mut v = Vec::new();
    v.push(m);
    assert(v@ =~= seq![m]);
    v
}

/// An environment with no variables.
fn no_vars() -> (env: StringMap)
    ensures
        env_is(env, Map::empty()),
{
    NameMap::new()
}

/// `env` with the variable `k` set to `v`.
fn with_var(env: StringMap, k: &str, v: &str, Ghost(m): Ghost<Map<Seq<char>, Seq<char>>>) -> (r: StringMap)
    requires
        env_is(env, m),
    ensures
        env_is(r, m.insert(k@, v@)),
{
    let mut env = env;
    let ghost before = env.items();
    env.insert(k.to_string(), v.to_string());
    proof {
        assert forall|q: Seq<char>| var_is(#[trigger] lookup(env.items(), q), m.insert(k@, v@), q) by {
            if q != k@ {
                assert(lookup(env.items(), q) == lookup(before, q));
                assert(var_is(lookup(before, q), m, q));
            }
        }
    }
    env
}

/// Whether `d` is one of the built-in definitions with the given name,
/// dependencies and restart policy.
pub open spec fn builtin(d: ServiceDefinition, name: Seq<char>, deps: Seq<Seq<char>>, policy: RestartPolicy) -> bool {
    &&& d.name@ == name
    &&& views(d.depends_on@) == deps
    &&& d.restart_policy == policy
    &&& plain_def(d)
}

impl ArgonautInit {
    /// The PostgreSQL and Redis database service definitions.
    pub fn database_services() -> (v: Vec<ServiceDefinition>)
        ensures
            v@.len() == 2,
            matches_entry(v@[0], postgres_entry()),
            matches_entry(v@[1], redis_entry()),
    {
        let env = with_var(no_vars(), "PGDATA", "/var/lib/postgresql/data", Ghost(Map::empty()));
        let postgres = base_def(
            "postgres",
            "PostgreSQL 17 database server",
            "/usr/lib/postgresql/17/bin/postgres",
            vec![
                "-D".to_string(),
                "/var/lib/postgresql/data".to_string(),
                "-c".to_string(),
                "config_file=/etc/postgresql/postgresql.conf.agnos".to_string(),
            ],
            env,
            Vec::new(),
            vec![BootMode::Server, BootMode::Desktop],
            RestartPolicy::OnFailure,
            tcp_health(5432, 15_000, 2000, 3),
            tcp_ready(5432, 10_000, 15, 500),
        );
        let redis = base_def(
            "redis",
            "Redis 7 in-memory cache",
            "/usr/bin/redis-server",
            vec!["/etc/redis/redis.conf".to_string()],
            no_vars(),
            Vec::new(),
            vec![BootMode::Server, BootMode::Desktop],
            RestartPolicy::Always,
            tcp_health(6379, 10_000, 1000, 3),
            tcp_ready(6379, 5000, 10, 200),
        );
        assert(views(postgres.depends_on@) =~= seq![]);
        assert(views(redis.depends_on@) =~= seq![]);
        assert(views(postgres.args@) =~= postgres_entry().4.2);
        assert(views(redis.args@) =~= redis_entry().4.2);
        assert(postgres.required_for_modes@ =~= postgres_entry().3);
        assert(redis.required_for_modes@ =~= redis_entry().3);
        vec![postgres, redis]
    }

    /// The Synapse LLM management and training service definition.
    pub fn synapse_service() -> (d: ServiceDefinition)
        ensures
            matches_entry(d, synapse_entry()),
    {
        let env = with_var(no_vars(), "SYNAPSE_DATA_DIR", "/var/lib/synapse", Ghost(Map::empty()));
        let env = with_var(
            env,
            "SYNAPSE_MODEL_DIR",
            "/var/lib/synapse/models",
            Ghost(Map::empty().insert("SYNAPSE_DATA_DIR"@, "/var/lib/synapse"@)),
        );
        let d = base_def(
            "synapse",
            "Synapse LLM management and training service",
            "/usr/lib/synapse/bin/synapse",
            vec!["serve".to_string(), "--config".to_string(), "/etc/synapse/synapse.toml".to_string()],
            env,
            vec!["daimon".to_string(), "llm-gateway".to_string()],
            vec![BootMode::Server, BootMode::Desktop],
            RestartPolicy::OnFailure,
            http_health("http://127.0.0.1:8080/health", 15_000, 3000, 3),
            tcp_ready(8080, 10_000, 15, 500),
        );
        assert(views(d.depends_on@) =~= synapse_entry().1);
        assert(views(d.args@) =~= synapse_entry().4.2);
        assert(d.required_for_modes@ =~= synapse_entry().3);
        d
    }

    /// The Shruti digital audio workstation. It is never started by
    /// default: users opt in.
    pub fn shruti_service() -> (d: ServiceDefinition)
        ensures
            matches_entry(d, shruti_entry()),
    {
        let env = with_var(no_vars(), "SHRUTI_DATA_DIR", "/home/${USER}/.local/share/shruti", Ghost(Map::empty()));
        let env = with_var(
            env,
            "PIPEWIRE_RUNTIME_DIR",
            "/run/user/1000",
            Ghost(Map::empty().insert("SHRUTI_DATA_DIR"@, "/home/${USER}/.local/share/shruti"@)),
        );
        let d = base_def(
            "shruti",
            "Shruti digital audio workstation",
            "/usr/local/bin/shruti",
            Vec::new(),
            env,
            vec!["daimon".to_string(), "aethersafha".to_string()],
            Vec::new(),
            RestartPolicy::OnFailure,
            alive_health(10_000, 1000, 3),
            None,
        );
        assert(views(d.depends_on@) =~= shruti_entry().1);
        assert(views(d.args@) =~= shruti_entry().4.2);
        assert(d.required_for_modes@ =~= shruti_entry().3);
        d
    }

    /// The optional service catalogue: services not started by default
    /// that users may enable.
    pub fn optional_services() -> (v: Vec<ServiceDefinition>)
        ensures
            v@.len() == 1,
            matches_entry(v@[0], shruti_entry()),
    {
        vec![Self::shruti_service()]
    }

    /// The optional service named `name`.
    pub fn optional_service(name: &str) -> (r: Option<ServiceDefinition>)
        ensures
            r is Some <==> name@ == "shruti"@,
            r matches Some(d) ==> matches_entry(d, shruti_entry()),
    {
        let mut v = Self::optional_services();
        let mut i: usize = 0;
        while i < v.len()
            invariant
                v@.len() == 1,
                matches_entry(v@[0], shruti_entry()),
                i <= 1,
                i == 1 ==> v@[0].name@ != name@,
            decreases 1 - i,
        {
            if crate::text::str_eq(v[i].name.as_str(), name) {
                let d = v.remove(i);
                return Some(d);
            }
            i += 1;
        }
        None
    }
}

impl ArgonautInit {
    /// The agent runtime as edge mode runs it.
    fn edge_daimon() -> (d: ServiceDefinition)
        ensures
            matches_entry(d, edge_daimon_entry()),
    {
        let env = with_var(no_vars(), "AGNOS_EDGE_MODE", "1", Ghost(Map::empty()));
        let env = with_var(env, "AGNOS_READONLY_ROOTFS", "1", Ghost(Map::empty().insert("AGNOS_EDGE_MODE"@, "1"@)));
        let env = with_var(
            env,
            "AGNOS_EDGE_LUKS",
            "1",
            Ghost(Map::empty().insert("AGNOS_EDGE_MODE"@, "1"@).insert("AGNOS_READONLY_ROOTFS"@, "1"@)),
        );
        let d = base_def(
            "daimon",
            "Daimon agent orchestrator (edge mode)",
            "/usr/lib/agnos/agent_runtime",
            vec!["--port".to_string(), "8090".to_string(), "--mode".to_string(), "edge".to_string()],
            env,
            Vec::new(),
            one_mode(BootMode::Edge),
            RestartPolicy::Always,
            http_health("http://127.0.0.1:8090/v1/health", 10_000, 2000, 3),
            tcp_ready(8090, 3000, 5, 200),
        );
        assert(views(d.depends_on@) =~= edge_daimon_entry().1);
        assert(views(d.args@) =~= edge_daimon_entry().4.2);
        d
    }

    /// The agent runtime outside edge mode; on server and desktop it waits
    /// for the databases.
    fn daimon(with_databases: bool) -> (d: ServiceDefinition)
        ensures
            matches_entry(d, daimon_entry(if with_databases { seq!["postgres"@, "redis"@] } else { seq![] })),
    {
        let db_deps: Vec<String> = if with_databases {
            vec!["postgres".to_string(), "redis".to_string()]
        } else {
            Vec::new()
        };
        let d = base_def(
            "daimon",
            "Daimon agent orchestrator",
            "/usr/lib/agnos/agent_runtime",
            vec!["--port".to_string(), "8090".to_string()],
            no_vars(),
            db_deps,
            vec![BootMode::Minimal, BootMode::Server, BootMode::Desktop],
            RestartPolicy::Always,
            http_health("http://127.0.0.1:8090/v1/health", 10_000, 2000, 3),
            tcp_ready(8090, 5000, 10, 200),
        );
        assert(views(d.depends_on@) =~= (if with_databases { seq!["postgres"@, "redis"@] } else { seq![] }));
        assert(views(d.args@) =~= seq!["--port"@, "8090"@]);
        assert(d.required_for_modes@ =~= seq![BootMode::Minimal, BootMode::Server, BootMode::Desktop]);
        d
    }

    /// The LLM inference gateway.
    fn gateway() -> (d: ServiceDefinition)
        ensures
            matches_entry(d, gateway_entry()),
    {
        let d = base_def(
            "llm-gateway",
            "Hoosh LLM inference gateway",
            "/usr/lib/agnos/llm_gateway",
            vec!["--port".to_string(), "8088".to_string()],
            no_vars(),
            vec!["daimon".to_string()],
            vec![BootMode::Server, BootMode::Desktop],
            RestartPolicy::OnFailure,
            http_health("http://127.0.0.1:8088/health", 15_000, 2000, 3),
            tcp_ready(8088, 5000, 10, 200),
        );
        assert(views(d.depends_on@) =~= gateway_entry().1);
        assert(views(d.args@) =~= gateway_entry().4.2);
        assert(d.required_for_modes@ =~= gateway_entry().3);
        d
    }

    /// The Wayland compositor.
    fn compositor() -> (d: ServiceDefinition)
        ensures
            matches_entry(d, compositor_entry()),
    {
        let d = base_def(
            "aethersafha",
            "Wayland compositor",
            "/usr/lib/agnos/aethersafha",
            Vec::new(),
            with_var(no_vars(), "XDG_SESSION_TYPE", "wayland", Ghost(Map::empty())),
            vec!["daimon".to_string()],
            one_mode(BootMode::Desktop),
            RestartPolicy::Always,
            alive_health(5000, 1000, 2),
            None,
        );
        assert(views(d.depends_on@) =~= compositor_entry().1);
        assert(views(d.args@) =~= compositor_entry().4.2);
        d
    }

    /// The AI terminal shell.
    fn shell() -> (d: ServiceDefinition)
        ensures
            matches_entry(d, shell_entry()),
    {
        let d = base_def(
            "agnoshi",
            "AI terminal shell",
            "/usr/lib/agnos/agnoshi",
            Vec::new(),
            no_vars(),
            vec!["daimon".to_string(), "aethersafha".to_string()],
            one_mode(BootMode::Desktop),
            RestartPolicy::OnFailure,
            alive_health(10_000, 1000, 3),
            None,
        );
        assert(views(d.depends_on@) =~= shell_entry().1);
        assert(views(d.args@) =~= shell_entry().4.2);
        d
    }

    /// The default services of a boot mode: none for recovery; the agent
    /// runtime alone for edge and minimal; databases, agent runtime, LLM
    /// gateway and Synapse for server; and the compositor and shell as well
    /// for desktop.
    pub fn default_services(mode: BootMode) -> (v: Vec<ServiceDefinition>)
        ensures
            default_services_spec(mode, v@),
    {
        let mut v: Vec<ServiceDefinition> = Vec::new();
        if mode == BootMode::Recovery {
            return v;
        }
        if mode == BootMode::Edge {
            v.push(Self::edge_daimon());
            assert(matches_entry(v@[0], default_table(mode)[0]));
            return v;
        }
        let server_like = mode == BootMode::Server || mode == BootMode::Desktop;
        if !server_like {
            v.push(Self::daimon(false));
            assert(mode == BootMode::Minimal);
            assert(matches_entry(v@[0], default_table(mode)[0]));
            return v;
        }
        v = Self::database_services();
        v.push(Self::daimon(true));
        v.push(Self::gateway());
        v.push(Self::synapse_service());
        let ghost t = default_table(mode);
        assert(matches_entry(v@[0], t[0]));
        assert(matches_entry(v@[1], t[1]));
        assert(matches_entry(v@[2], t[2]));
        assert(matches_entry(v@[3], t[3]));
        assert(matches_entry(v@[4], t[4]));
        if mode == BootMode::Server {
            return v;
        }
        v.push(Self::compositor());
        v.push(Self::shell());
        assert(matches_entry(v@[5], t[5]));
        assert(matches_entry(v@[6], t[6]));
        v
    }
}

} // verus!

verus! {

/// `q` names one of the default services of `mode`.
pub open spec fn is_default_name(mode: BootMode, q: Seq<char>) -> bool {
    exists|i: int| 0 <= i < default_table(mode).len() && #[trigger] default_table(mode)[i].0 == q
}

/// `k` is the first of `cfg` named `q`.
pub open spec fn first_named(cfg: Seq<ServiceDefinition>, q: Seq<char>, k: int) -> bool {
    &&& 0 <= k < cfg.len()
    &&& cfg[k].name@ == q
    &&& forall|j: int| 0 <= j < k ==> #[trigger] cfg[j].name@ != q
}

/// Some entry of `cfg` is named `q`.
pub open spec fn has_named(cfg: Seq<ServiceDefinition>, q: Seq<char>) -> bool {
    exists|k: int| 0 <= k < cfg.len() && #[trigger] cfg[k].name@ == q
}

/// The default services of a mode have distinct names.
pub proof fn lemma_default_names_distinct(mode: BootMode)
    ensures
        forall|i: int, j: int|
            0 <= i < j < default_table(mode).len() ==> #[trigger] default_table(mode)[i].0
                != #[trigger] default_table(mode)[j].0,
{
    reveal_strlit("postgres");
    reveal_strlit("redis");
    reveal_strlit("daimon");
    reveal_strlit("llm-gateway");
    reveal_strlit("synapse");
    reveal_strlit("aethersafha");
    reveal_strlit("agnoshi");
    let t = default_table(mode);
    assert forall|i: int, j: int| 0 <= i < j < t.len() implies #[trigger] t[i].0 != #[trigger] t[j].0 by {
        if t[i].0 == t[j].0 {
            assert(t[i].0.len() == t[j].0.len());
            assert(t[i].0[0] == t[j].0[0]);
            assert(t[i].0[1] == t[j].0[1]);
        }
    }
}

/// `o` is a freshly registered service with the default definition `e`.
pub open spec fn registered_default(o: Option<ManagedService>, e: DefaultEntry) -> bool {
    match o {
        Some(m) => fresh(m) && matches_entry(m.definition, e),
        None => false,
    }
}

/// `o` is a freshly registered service with a copy of definition `d`.
pub open spec fn registered_copy(o: Option<ManagedService>, d: ServiceDefinition) -> bool {
    match o {
        Some(m) => fresh(m) && same_def(m.definition, d),
        None => false,
    }
}

impl ArgonautInit {
    /// A new init system for `config`: the boot sequence of its mode, its
    /// mode's default services, and then each service of `config` whose name
    /// is not yet registered, all stopped.
    pub fn new(config: ArgonautConfig) -> (init: Self)
        ensures
            init.config == config,
            boot_sequence_spec(config.boot_mode, init.boot_sequence@),
            init.boot_started is None,
            init.boot_completed is None,
            init.processes.entries().len() == 0,
            forall|q: Seq<char>|
                #[trigger] init.svc(q) is Some <==> (is_default_name(config.boot_mode, q) || has_named(
                    config.services@,
                    q,
                )),
            forall|i: int|
                0 <= i < default_table(config.boot_mode).len() ==> registered_default(#[trigger] init.svc(default_table(config.boot_mode)[i].0), default_table(config.boot_mode)[i]),
            forall|q: Seq<char>, k: int|
                !is_default_name(config.boot_mode, q) && first_named(config.services@, q, k)
                    ==> registered_copy(#[trigger] init.svc(q), #[trigger] config.services@[k]),
    {
        let mode = config.boot_mode;
        let boot_sequence = Self::build_boot_sequence(mode);
        let mut rest = Self::default_services(mode);
        let ghost table = default_table(mode);
        let ghost all = rest@;
        proof {
            lemma_default_names_distinct(mode);
        }
        let n = rest.len();
        let mut services: NameMap<ManagedService> = NameMap::new();
        let mut k: usize = 0;
        while k < n
            invariant
                n == table.len(),
                table == default_table(mode),
                default_services_spec(mode, all),
                k <= n,
                rest@ == all.skip(k as int),
                forall|i: int, j: int|
                    0 <= i < j < table.len() ==> #[trigger] table[i].0 != #[trigger] table[j].0,
                forall|q: Seq<char>|
                    #[trigger] lookup(services.items(), q) is Some <==> exists|i: int|
                        0 <= i < k && table[i].0 == q,
                forall|i: int|
                    0 <= i < k ==> registered_default(#[trigger] lookup(services.items(), table[i].0), table[i]),
            decreases n - k,
        {
            let d = rest.remove(0);
            assert(d == all[k as int]);
            assert(matches_entry(d, table[k as int]));
            let name = d.name.clone();
            let ghost before = services.items();
            services.insert(name, fresh_service(d));
            proof {
                assert forall|q: Seq<char>| #[trigger] lookup(services.items(), q) is Some <==> exists|i: int|
                    0 <= i < k + 1 && table[i].0 == q by {
                    if q != table[k as int].0 {
                        if exists|i: int| 0 <= i < k + 1 && table[i].0 == q {
                            let i = choose|i: int| 0 <= i < k + 1 && table[i].0 == q;
                            assert(i < k);
                        }
                    }
                }
                assert forall|i: int| 0 <= i < k + 1 implies registered_default(#[trigger] lookup(services.items(), table[i].0), table[i]) by {
                    if i < k {
                        assert(table[i].0 != table[k as int].0);
                        assert(lookup(services.items(), table[i].0) == lookup(before, table[i].0));
                    }
                }
                assert(rest@ =~= all.skip(k + 1));
            }
            k += 1;
        }
        let m = config.services.len();
        let mut c: usize = 0;
        while c < m
            invariant
                m == config.services@.len(),
                c <= m,
                n == table.len(),
                table == default_table(mode),
                mode == config.boot_mode,
                forall|q: Seq<char>|
                    #[trigger] lookup(services.items(), q) is Some <==> (is_default_name(mode, q)
                        || exists|j: int| 0 <= j < c && config.services@[j].name@ == q),
                forall|i: int|
                    0 <= i < n ==> registered_default(#[trigger] lookup(services.items(), table[i].0), table[i]),
                forall|q: Seq<char>, j: int|
                    !is_default_name(mode, q) && first_named(config.services@, q, j) && j < c
                        ==> registered_copy(#[trigger] lookup(services.items(), q), #[trigger] config.services@[j]),
            decreases m - c,
        {
            let svc = &config.services[c];
            if !services.contains_key(svc.name.as_str()) {
                let ghost before = services.items();
                let def = svc.clone();
                let name = svc.name.clone();
                proof {
                    assert(lookup(services.items(), svc.name@) is None);
                    assert(!is_default_name(mode, svc.name@));
                    assert(forall|j: int| 0 <= j < c ==> config.services@[j].name@ != svc.name@);
                }
                services.insert(name, fresh_service(def));
                proof {
                    assert forall|i: int| 0 <= i < n implies registered_default(#[trigger] lookup(services.items(), table[i].0), table[i]) by {
                        assert(lookup(before, table[i].0) is Some);
                        assert(table[i].0 != svc.name@);
                    }
                    assert forall|q: Seq<char>, j: int|
                        !is_default_name(mode, q) && first_named(config.services@, q, j) && j < c + 1
                            implies registered_copy(#[trigger] lookup(services.items(), q), #[trigger] config.services@[j]) by {
                        if j == c {
                            assert(q == svc.name@);
                        } else {
                            assert(config.services@[j].name@ == q);
                            assert(q != svc.name@);
                        }
                    }
                }
            } else {
                proof {
                    assert forall|q: Seq<char>, j: int|
                        !is_default_name(mode, q) && first_named(config.services@, q, j) && j < c + 1
                            implies registered_copy(#[trigger] lookup(services.items(), q), #[trigger] config.services@[j]) by {
                        if j == c {
                            assert(q == svc.name@);
                            assert(lookup(services.items(), q) is Some);
                            if !is_default_name(mode, q) {
                                let j2 = choose|j2: int| 0 <= j2 < c && config.services@[j2].name@ == q;
                                assert(config.services@[j2].name@ != q);
                            }
                        }
                    }
                }
            }
            c += 1;
        }
        ArgonautInit {
            config,
            boot_sequence,
            services,
            boot_started: None,
            boot_completed: None,
            processes: ProcessTable::new(),
        }
    }
}

} // verus!

verus! {

/// Whether `mode` starts the databases, the LLM services and the agent
/// runtime that waits for them.
pub open spec fn full_stack(mode: BootMode) -> bool {
    mode == BootMode::Server || mode == BootMode::Desktop
}

/// Dependency `j` of entry `i` of `t` names an entry listed before it.
pub open spec fn entry_dep_before(t: Seq<DefaultEntry>, i: int, j: int) -> bool {
    exists|k: int| 0 <= k < i && #[trigger] t[k].0 == t[i].1[j]
}

/// Each dependency of a default entry names an entry listed before it.
proof fn lemma_table_deps_earlier(mode: BootMode)
    ensures
        forall|i: int, j: int|
            0 <= i < default_table(mode).len() && 0 <= j < default_table(mode)[i].1.len()
                ==> #[trigger] entry_dep_before(default_table(mode), i, j),
{
    let t = default_table(mode);
    assert forall|i: int, j: int| 0 <= i < t.len() && 0 <= j < t[i].1.len() implies #[trigger] entry_dep_before(
        t,
        i,
        j,
    ) by {
        if mode == BootMode::Server || mode == BootMode::Desktop {
            assert(t[0].0 == "postgres"@ && t[1].0 == "redis"@ && t[2].0 == "daimon"@ && t[3].0 == "llm-gateway"@);
            if i == 2 {
                assert(t[i].1 == seq!["postgres"@, "redis"@]);
                if j == 0 {
                    assert(t[0].0 == t[i].1[j]);
                } else {
                    assert(t[1].0 == t[i].1[j]);
                }
            } else if i == 3 {
                assert(t[2].0 == t[i].1[j]);
            } else if i == 4 {
                assert(t[i].1 == seq!["daimon"@, "llm-gateway"@]);
                if j == 0 {
                    assert(t[2].0 == t[i].1[j]);
                } else {
                    assert(t[3].0 == t[i].1[j]);
                }
            } else if i == 5 {
                assert(t[2].0 == t[i].1[j]);
            } else if i == 6 {
                assert(t[5].0 == "aethersafha"@);
                assert(t[i].1 == seq!["daimon"@, "aethersafha"@]);
                if j == 0 {
                    assert(t[2].0 == t[i].1[j]);
                } else {
                    assert(t[5].0 == t[i].1[j]);
                }
            }
        }
    }
}

/// No default entry is named `shruti`, and the agent runtime, present in
/// every mode but recovery, depends on the databases exactly in the modes
/// that start them.
proof fn lemma_table_names(mode: BootMode)
    ensures
        forall|i: int| 0 <= i < default_table(mode).len() ==> #[trigger] default_table(mode)[i].0 != "shruti"@,
        forall|i: int|
            0 <= i < default_table(mode).len() && #[trigger] default_table(mode)[i].0 == "daimon"@
                ==> default_table(mode)[i].1 == if full_stack(mode) {
                seq!["postgres"@, "redis"@]
            } else {
                seq![]
            },
        mode != BootMode::Recovery <==> exists|i: int|
            0 <= i < default_table(mode).len() && #[trigger] default_table(mode)[i].0 == "daimon"@,
        forall|i: int| 0 <= i < default_table(mode).len() ==> (#[trigger] default_table(mode)[i].3).contains(mode),
{
    reveal_strlit("postgres");
    reveal_strlit("redis");
    reveal_strlit("daimon");
    reveal_strlit("llm-gateway");
    reveal_strlit("synapse");
    reveal_strlit("aethersafha");
    reveal_strlit("agnoshi");
    reveal_strlit("shruti");
    let t = default_table(mode);
    assert forall|i: int| 0 <= i < t.len() implies #[trigger] t[i].0 != "shruti"@ by {
        if t[i].0 == "shruti"@ {
            assert(t[i].0[0] == 's');
            assert(t[i].0[1] == 'h');
        }
    }
    assert forall|i: int| 0 <= i < t.len() && #[trigger] t[i].0 == "daimon"@ implies t[i].1 == if full_stack(mode) {
        seq!["postgres"@, "redis"@]
    } else {
        seq![]
    } by {
        if full_stack(mode) && i != 2 {
            assert(t[i].0[0] == 'd');
            assert(t[i].0[1] == 'a');
        }
    }
    if mode != BootMode::Recovery {
        let k: int = if full_stack(mode) { 2 } else { 0 };
        assert(t[k].0 == "daimon"@);
    }
    assert forall|i: int| 0 <= i < t.len() implies (#[trigger] t[i].3).contains(mode) by {
        // where `mode` stands in the entry's list of modes
        let k: int = if mode == BootMode::Desktop {
            if i == 2 {
                2
            } else if i < 5 {
                1
            } else {
                0
            }
        } else if mode == BootMode::Server && i == 2 {
            1
        } else {
            0
        };
        assert(t[i].3[k] == mode);
    }
}

/// The default services of a boot mode form a consistent set: their names
/// are distinct; each dependency names a default service listed before it,
/// so they always resolve to a full start order; each is required by the
/// mode; the optional `shruti` is never among them; the agent runtime is
/// there in every mode but recovery, and depends on PostgreSQL and Redis
/// exactly in server and desktop mode.
pub proof fn lemma_default_services_consistent(mode: BootMode, v: Seq<ServiceDefinition>)
    requires
        default_services_spec(mode, v),
    ensures
        forall|i: int, j: int| 0 <= i < j < v.len() ==> #[trigger] v[i].name@ != #[trigger] v[j].name@,
        forall|i: int, j: int|
            0 <= i < v.len() && 0 <= j < v[i].depends_on@.len() ==> #[trigger] dep_before(v, i, j),
        forall|i: int| 0 <= i < v.len() ==> (#[trigger] v[i].required_for_modes@).contains(mode),
        forall|i: int| 0 <= i < v.len() ==> #[trigger] v[i].name@ != "shruti"@,
        forall|i: int|
            0 <= i < v.len() && #[trigger] v[i].name@ == "daimon"@ ==> views(v[i].depends_on@) == if full_stack(
                mode,
            ) {
                seq!["postgres"@, "redis"@]
            } else {
                seq![]
            },
        mode != BootMode::Recovery <==> exists|i: int| 0 <= i < v.len() && #[trigger] v[i].name@ == "daimon"@,
        listed_in_order(v),
        all_defined(v),
        forall|e: DependencyError| !order_error(v, e),
{
    let t = default_table(mode);
    lemma_default_names_distinct(mode);
    lemma_table_deps_earlier(mode);
    lemma_table_names(mode);
    assert forall|i: int| 0 <= i < v.len() implies #[trigger] v[i].name@ == t[i].0 && views(v[i].depends_on@)
        == t[i].1 && v[i].required_for_modes@ == t[i].3 by {
        assert(matches_entry(v[i], t[i]));
    }
    assert forall|i: int, j: int| 0 <= i < j < v.len() implies #[trigger] v[i].name@ != #[trigger] v[j].name@ by {
        assert(t[i].0 != t[j].0);
    }
    assert forall|i: int, j: int| 0 <= i < v.len() && 0 <= j < v[i].depends_on@.len() implies #[trigger] dep_before(
        v,
        i,
        j,
    ) by {
        assert(matches_entry(v[i], t[i]));
        assert(views(v[i].depends_on@)[j] == v[i].depends_on@[j]@);
        assert(v[i].depends_on@[j]@ == t[i].1[j]);
        assert(entry_dep_before(t, i, j));
        let k = choose|k: int| 0 <= k < i && #[trigger] t[k].0 == t[i].1[j];
        assert(v[k].name@ == t[k].0);
    }
    assert forall|i: int| 0 <= i < v.len() implies (#[trigger] v[i].required_for_modes@).contains(mode) by {
        assert(v[i].name@ == t[i].0);
        assert(t[i].3.contains(mode));
    }
    if mode != BootMode::Recovery {
        let k = choose|i: int| 0 <= i < t.len() && #[trigger] t[i].0 == "daimon"@;
        assert(v[k].name@ == t[k].0);
    }
    assert forall|i: int| 0 <= i < v.len() && #[trigger] v[i].name@ == "daimon"@ implies exists|k: int|
        0 <= k < t.len() && #[trigger] t[k].0 == "daimon"@ by {
        assert(v[i].name@ == t[i].0);
    }
    lemma_listed_order_starts_all(v);
}

} // verus!
