//! The registry of managed services: registration, state transitions,
//! enabling and disabling, start and shutdown order, and crash handling.

use vstd::prelude::*;

use crate::clock::now_ms;
use crate::deps::{
    order_error, wave_error,
    all_defined, dv, first_missing, greedy, layered, stuck, views, wave_views, DependencyError,
};
use crate::init::{fresh, fresh_service, ArgonautInit};
use crate::namemap::{has_key, lookup, NameMap};
use crate::services::{matches_entry, shruti_entry};
use crate::text::{concat3, dec, owned, push_str, push_u64};
use crate::types::{
    backoff_spec, lemma_backoff_monotone_capped, max_nat, min_nat, spawn_spec_of, transition_ok, BootMode, CrashAction, EmergencyShellConfig, ExitStatus,
    ManagedService, ProcessSpec, RestartConfig, RestartPolicy, ServiceDefinition, ServiceEvent,
    ServiceEventType, ServiceState,
};

verus! {

/// The definitions of the managed services, in name order.
pub open spec fn all_defs(items: Seq<(String, ManagedService)>) -> Seq<ServiceDefinition> {
    items.map_values(|p: (String, ManagedService)| p.1.definition)
}

/// `o` is a service in the running state.
pub open spec fn is_running(o: Option<ManagedService>) -> bool {
    match o {
        Some(m) => m.state is Running,
        None => false,
    }
}

/// The reason given when the restart limit is reached.
pub open spec fn give_up_reason(count: u32, max: u32, after_failures: bool) -> Seq<char> {
    (if after_failures {
        "exceeded restart limit after failures ("@
    } else {
        "exceeded restart limit ("@
    }) + dec(count as nat) + "/"@ + dec(max as nat) + " restarts)"@
}

/// The action for a crash of `o` with exit status `status`.
pub open spec fn crash_action_ok(a: CrashAction, o: Option<ManagedService>, status: ExitStatus) -> bool {
    match o {
        None => a is Ignore,
        Some(m) => {
            let c = m.definition.restart_config;
            let n = m.restart_count;
            let exceeded = c.max_restarts > 0 && n >= c.max_restarts;
            let restart = CrashAction::Restart {
                delay_ms: backoff_spec(c.base_delay_ms as nat, c.max_delay_ms as nat, n as nat) as u64,
            };
            match m.definition.restart_policy {
                RestartPolicy::Never => a is Ignore,
                RestartPolicy::Always => if exceeded {
                    a matches CrashAction::GiveUp { reason } && reason@ == give_up_reason(
                        n,
                        c.max_restarts,
                        false,
                    )
                } else {
                    a == restart
                },
                RestartPolicy::OnFailure => if status == ExitStatus::Code(0) {
                    a is Ignore
                } else if exceeded {
                    a matches CrashAction::GiveUp { reason } && reason@ == give_up_reason(
                        n,
                        c.max_restarts,
                        true,
                    )
                } else {
                    a == restart
                },
            }
        },
    }
}

/// The restart limit of `m` has not been reached: it has none (0), or has
/// restarted fewer times than it allows.
pub open spec fn below_limit(m: ManagedService) -> bool {
    m.definition.restart_config.max_restarts == 0 || m.restart_count < m.definition.restart_config.max_restarts
}

/// What a crash leads to. A service that never restarts is left alone. One
/// that always restarts is restarted whatever its exit status, clean exits
/// included, while below its restart limit, and given up past it. One that
/// restarts on failure is left alone after a clean exit and otherwise
/// treated as one that always restarts. A restart waits the backoff delay
/// of the restarts so far, which for the first restart is the base delay
/// (at least 100 ms) capped by the maximum delay (at least 100 ms).
pub proof fn lemma_crash_actions(a: CrashAction, m: ManagedService, status: ExitStatus)
    requires
        crash_action_ok(a, Some(m), status),
    ensures
        m.definition.restart_policy is Never ==> a is Ignore,
        (m.definition.restart_policy is Always || (m.definition.restart_policy is OnFailure && status
            != ExitStatus::Code(0))) && below_limit(m) ==> (a matches CrashAction::Restart { delay_ms }
            && delay_ms == backoff_spec(
            m.definition.restart_config.base_delay_ms as nat,
            m.definition.restart_config.max_delay_ms as nat,
            m.restart_count as nat,
        )),
        (m.definition.restart_policy is Always || (m.definition.restart_policy is OnFailure && status
            != ExitStatus::Code(0))) && !below_limit(m) ==> a is GiveUp,
        m.definition.restart_policy is OnFailure && status == ExitStatus::Code(0) ==> a is Ignore,
        m.restart_count == 0 ==> (a matches CrashAction::Restart { delay_ms } ==> delay_ms == min_nat(
            max_nat(m.definition.restart_config.base_delay_ms as nat, 100),
            max_nat(m.definition.restart_config.max_delay_ms as nat, 100),
        )),
{
    let c = m.definition.restart_config;
    lemma_backoff_monotone_capped(c.base_delay_ms as nat, c.max_delay_ms as nat, 0, m.restart_count as nat);
}

/// Under a policy that always restarts, the exit status makes no
/// difference: two crashes of the same service, with any two exit
/// statuses, lead to the same restart, or both to giving up.
pub proof fn lemma_always_ignores_exit_status(
    a1: CrashAction,
    a2: CrashAction,
    m: ManagedService,
    s1: ExitStatus,
    s2: ExitStatus,
)
    requires
        crash_action_ok(a1, Some(m), s1),
        crash_action_ok(a2, Some(m), s2),
        m.definition.restart_policy is Always,
    ensures
        a1 is Restart ==> a1 == a2,
        a1 is GiveUp <==> a2 is GiveUp,
        !(a1 is Ignore),
{
}

/// The definitions of `items` whose boot modes include `mode`, in order.
pub open spec fn defs_for_mode(items: Seq<(String, ManagedService)>, mode: BootMode) -> Seq<ServiceDefinition>
    decreases items.len(),
{
    if items.len() == 0 {
        Seq::empty()
    } else {
        let p = defs_for_mode(items.drop_last(), mode);
        if items.last().1.definition.required_for_modes@.contains(mode) {
            p.push(items.last().1.definition)
        } else {
            p
        }
    }
}

impl ArgonautInit {
    /// Every dependency of service `m` is running.
    pub open spec fn deps_running(&self, m: ManagedService) -> bool {
        forall|j: int|
            0 <= j < m.definition.depends_on@.len() ==> is_running(
                #[trigger] self.svc(m.definition.depends_on@[j]@),
            )
    }

    /// Service `name` may move to `state`: it exists, the life cycle allows
    /// the move, and to start, all it depends on is running.
    pub open spec fn may_set_state(&self, name: Seq<char>, state: ServiceState) -> bool {
        match self.svc(name) {
            Some(m) => transition_ok(m.state, state) && (state is Starting ==> self.deps_running(m)),
            None => false,
        }
    }

    /// Only the service `name` may differ from `other`, and everything but
    /// the services is the same.
    pub open spec fn same_but(&self, other: &ArgonautInit, name: Seq<char>) -> bool {
        &&& self.config == other.config
        &&& self.boot_sequence == other.boot_sequence
        &&& self.boot_started == other.boot_started
        &&& self.boot_completed == other.boot_completed
        &&& self.processes == other.processes
        &&& forall|q: Seq<char>| q != name ==> #[trigger] self.svc(q) == other.svc(q)
    }

    /// Replaces the record of service `name`.
    fn put_service(&mut self, name: &str, m: ManagedService)
        ensures
            final(self).same_but(old(self), name@),
            final(self).svc(name@) == Some(m),
    {
        self.services.insert(owned(name), m);
    }

    /// Registers `definition`. A service of that name keeps its runtime
    /// state and takes the new definition; otherwise it is added, stopped.
    pub fn register_service(&mut self, definition: ServiceDefinition)
        ensures
            final(self).same_but(old(self), definition.name@),
            final(self).svc(definition.name@) == Some(
                match old(self).svc(definition.name@) {
                    Some(m) => ManagedService { definition, ..m },
                    None => ManagedService {
                        definition,
                        state: ServiceState::Stopped,
                        pid: None,
                        started_at: None,
                        restart_count: 0,
                        last_health_check: None,
                    },
                },
            ),
    {
        let name = definition.name.clone();
        match self.services.remove(name.as_str()) {
            Some(existing) => {
                let m = ManagedService { definition, ..existing };
                self.services.insert(name, m);
            },
            None => {
                self.services.insert(name, fresh_service(definition));
            },
        }
    }

    /// The managed service `name`.
    pub fn get_service(&self, name: &str) -> (r: Option<&ManagedService>)
        ensures
            match r {
                Some(m) => self.svc(name@) == Some(*m),
                None => self.svc(name@) is None,
            },
    {
        self.services.get(name)
    }

    /// The state of service `name`.
    pub fn get_service_state(&self, name: &str) -> (r: Option<&ServiceState>)
        ensures
            match self.svc(name@) {
                Some(m) => r == Some(&m.state),
                None => r is None,
            },
    {
        match self.services.get(name) {
            Some(m) => Some(&m.state),
            None => None,
        }
    }

    /// Whether all that `def` depends on is running.
    fn deps_running_exec(&self, def: &ServiceDefinition) -> (b: bool)
        ensures
            b == (forall|j: int|
                0 <= j < def.depends_on@.len() ==> is_running(
                    #[trigger] self.svc(def.depends_on@[j]@),
                )),
    {
        let n = def.depends_on.len();
        let mut j: usize = 0;
        while j < n
            invariant
                n == def.depends_on@.len(),
                j <= n,
                forall|k: int|
                    0 <= k < j ==> is_running(#[trigger] self.svc(def.depends_on@[k]@)),
            decreases n - j,
        {
            let ok = match self.services.get(def.depends_on[j].as_str()) {
                Some(d) => d.state.is_running(),
                None => false,
            };
            if !ok {
                assert(!is_running(self.svc(def.depends_on@[j as int]@)));
                return false;
            }
            j += 1;
        }
        true
    }

    /// Moves service `name` to `state`. Returns whether it did: the service
    /// exists, the life cycle allows the move, and to start, everything it
    /// depends on is running. Otherwise nothing changes.
    pub fn set_service_state(&mut self, name: &str, state: ServiceState) -> (b: bool)
        ensures
            b == old(self).may_set_state(name@, state),
            b ==> final(self).same_but(old(self), name@) && final(self).svc(name@) == Some(
                ManagedService { state, ..old(self).svc(name@).unwrap() },
            ),
            !b ==> *final(self) == *old(self),
    {
        let ok = match self.services.get(name) {
            None => false,
            Some(m) => {
                if !m.state.valid_transition(&state) {
                    false
                } else if matches!(state, ServiceState::Starting) {
                    self.deps_running_exec(&m.definition)
                } else {
                    true
                }
            },
        };
        if !ok {
            return false;
        }
        match self.services.remove(name) {
            Some(m) => {
                let updated = ManagedService { state, ..m };
                self.services.insert(owned(name), updated);
                true
            },
            None => false,
        }
    }

    /// Sets whether service `name` takes part in boot.
    fn set_enabled(&mut self, name: &str, enabled: bool) -> (r: Result<(), String>)
        ensures
            match r {
                Ok(()) => old(self).svc(name@) is Some && final(self).same_but(old(self), name@)
                    && final(self).svc(name@) == Some(
                    ManagedService {
                        definition: ServiceDefinition {
                            enabled,
                            ..old(self).svc(name@).unwrap().definition
                        },
                        ..old(self).svc(name@).unwrap()
                    },
                ),
                Err(msg) => old(self).svc(name@) is None && *final(self) == *old(self) && msg@
                    == "service '"@ + name@ + "' is not registered"@,
            },
    {
        if !self.services.contains_key(name) {
            return Err(concat3("service '", name, "' is not registered"));
        }
        match self.services.remove(name) {
            Some(m) => {
                let mut updated = m;
                updated.definition.enabled = enabled;
                self.services.insert(owned(name), updated);
                Ok(())
            },
            None => Err(concat3("service '", name, "' is not registered")),
        }
    }

    /// Lets service `name` take part in boot again. Fails for an unknown
    /// service.
    pub fn enable_service(&mut self, name: &str) -> (r: Result<(), String>)
        ensures
            match r {
                Ok(()) => old(self).svc(name@) is Some && final(self).same_but(old(self), name@)
                    && final(self).svc(name@) == Some(
                    ManagedService {
                        definition: ServiceDefinition {
                            enabled: true,
                            ..old(self).svc(name@).unwrap().definition
                        },
                        ..old(self).svc(name@).unwrap()
                    },
                ),
                Err(msg) => old(self).svc(name@) is None && *final(self) == *old(self) && msg@
                    == "service '"@ + name@ + "' is not registered"@,
            },
    {
        self.set_enabled(name, true)
    }

    /// Keeps service `name` out of boot. Fails for an unknown service.
    pub fn disable_service(&mut self, name: &str) -> (r: Result<(), String>)
        ensures
            match r {
                Ok(()) => old(self).svc(name@) is Some && final(self).same_but(old(self), name@)
                    && final(self).svc(name@) == Some(
                    ManagedService {
                        definition: ServiceDefinition {
                            enabled: false,
                            ..old(self).svc(name@).unwrap().definition
                        },
                        ..old(self).svc(name@).unwrap()
                    },
                ),
                Err(msg) => old(self).svc(name@) is None && *final(self) == *old(self) && msg@
                    == "service '"@ + name@ + "' is not registered"@,
            },
    {
        self.set_enabled(name, false)
    }

    /// Adds the optional service `name` from the catalogue, stopped. Returns
    /// whether it was added: it is in the catalogue and not yet registered.
    pub fn enable_optional_service(&mut self, name: &str) -> (added: bool)
        ensures
            added == (old(self).svc(name@) is None && name@ == "shruti"@),
            !added ==> *final(self) == *old(self),
            added ==> final(self).same_but(old(self), name@) && (final(self).svc(name@) matches Some(
                m,
            ) && fresh(m) && matches_entry(m.definition, shruti_entry())),
    {
        if self.services.contains_key(name) {
            return false;
        }
        match Self::optional_service(name) {
            Some(def) => {
                self.services.insert(owned(name), fresh_service(def));
                true
            },
            None => false,
        }
    }

    /// References to all service definitions, in name order.
    fn definitions(&self) -> (v: Vec<&ServiceDefinition>)
        ensures
            dv(v@) == all_defs(self.services.items()),
    {
        let n = self.services.len();
        let mut v: Vec<&ServiceDefinition> = Vec::new();
        let mut i: usize = 0;
        while i < n
            invariant
                n == self.services.items().len(),
                i <= n,
                dv(v@) == all_defs(self.services.items()).take(i as int),
            decreases n - i,
        {
            let (_, m) = self.services.entry(i);
            let ghost before = v@;
            v.push(&m.definition);
            assert(all_defs(self.services.items())[i as int] == m.definition);
            assert(dv(v@) =~= dv(before).push(m.definition));
            assert(dv(v@) =~= all_defs(self.services.items()).take(i + 1));
            i += 1;
        }
        assert(all_defs(self.services.items()).take(n as int) =~= all_defs(self.services.items()));
        v
    }

    /// The definitions of the services that `mode` requires, in name order.
    pub fn services_for_mode(&self, mode: &BootMode) -> (v: Vec<&ServiceDefinition>)
        ensures
            dv(v@) == defs_for_mode(self.services.items(), *mode),
    {
        let n = self.services.len();
        let mut v: Vec<&ServiceDefinition> = Vec::new();
        let mut i: usize = 0;
        while i < n
            invariant
                n == self.services.items().len(),
                i <= n,
                dv(v@) == defs_for_mode(self.services.items().take(i as int), *mode),
            decreases n - i,
        {
            let (_, m) = self.services.entry(i);
            let mut found = false;
            let k = m.definition.required_for_modes.len();
            let mut j: usize = 0;
            while j < k
                invariant
                    k == m.definition.required_for_modes@.len(),
                    j <= k,
                    found == exists|a: int| 0 <= a < j && m.definition.required_for_modes@[a] == *mode,
                decreases k - j,
            {
                if m.definition.required_for_modes[j] == *mode {
                    found = true;
                }
                j += 1;
            }
            proof {
                let t = self.services.items().take(i + 1);
                assert(t.drop_last() =~= self.services.items().take(i as int));
                assert(t.last() == self.services.items()[i as int]);
            }
            if found {
                v.push(&m.definition);
            }
            assert(dv(v@) =~= defs_for_mode(self.services.items().take(i + 1), *mode));
            i += 1;
        }
        assert(self.services.items().take(n as int) =~= self.services.items());
        v
    }

    /// Service names in shutdown order: the start order reversed. Fails as
    /// `resolve_service_order` does on the registered definitions.
    pub fn shutdown_order(&self) -> (r: Result<Vec<String>, DependencyError>)
        ensures
            ({
                let d = all_defs(self.services.items());
                match r {
                    Ok(order) => all_defined(d) && greedy(d, views(order@).reverse())
                        && order@.len() == d.len(),
                    Err(DependencyError::Missing { service, dependency }) => exists|i: int, j: int|
                        first_missing(d, i, j) && service@ == d[i].name@ && dependency@
                            == d[i].depends_on@[j]@,
                    Err(DependencyError::Cycle { resolved, total }) => all_defined(d) && total
                        == d.len() && resolved < total && exists|p: Seq<Seq<char>>|
                        greedy(d, p) && stuck(d, p) && p.len() == resolved,
                }
            }),
    {
        let defs = self.definitions();
        match Self::resolve_service_order(defs.as_slice()) {
            Ok(order) => {
                let n = order.len();
                let mut rev: Vec<String> = Vec::new();
                let mut i: usize = n;
                while i > 0
                    invariant
                        n == order@.len(),
                        i <= n,
                        views(rev@) == views(order@).subrange(i as int, n as int).reverse(),
                    decreases i,
                {
                    i -= 1;
                    let ghost before = views(rev@);
                    rev.push(order[i].clone());
                    assert(views(rev@) =~= before.push(order@[i as int]@));
                    assert(views(rev@) =~= views(order@).subrange(i as int, n as int).reverse());
                }
                assert(views(order@).subrange(0, n as int) =~= views(order@));
                assert(views(rev@).reverse() =~= views(order@));
                Ok(rev)
            },
            Err(e) => Err(e),
        }
    }
}

} // verus!

verus! {

/// The names of `o` whose services are registered and enabled, in order.
pub open spec fn enabled_names(init: ArgonautInit, o: Seq<Seq<char>>) -> Seq<Seq<char>>
    decreases o.len(),
{
    if o.len() == 0 {
        Seq::empty()
    } else {
        let p = enabled_names(init, o.drop_last());
        if init.svc(o.last()) matches Some(m) && m.definition.enabled {
            p.push(o.last())
        } else {
            p
        }
    }
}

/// The waves of `ws` that hold at least one enabled service.
pub open spec fn enabled_waves(init: ArgonautInit, ws: Seq<Seq<Seq<char>>>) -> Seq<Seq<Seq<char>>>
    decreases ws.len(),
{
    if ws.len() == 0 {
        Seq::empty()
    } else {
        let p = enabled_waves(init, ws.drop_last());
        if enabled_names(init, ws.last()).len() > 0 {
            p.push(ws.last())
        } else {
            p
        }
    }
}

/// `plan` lists the enabled services named by `names`, in order, each with
/// the spawn specification of its definition.
pub open spec fn plan_of(init: ArgonautInit, plan: Seq<(String, ProcessSpec)>, names: Seq<Seq<char>>) -> bool {
    &&& plan.len() == enabled_names(init, names).len()
    &&& forall|k: int|
        0 <= k < plan.len() ==> {
            &&& (#[trigger] plan[k]).0@ == enabled_names(init, names)[k]
            &&& init.svc(plan[k].0@) matches Some(m) && spawn_spec_of(plan[k].1, m.definition)
        }
}

impl ArgonautInit {
    /// The enabled services among `names`, in order, each with its spawn
    /// specification.
    fn plan_for(&self, names: &Vec<String>) -> (plan: Vec<(String, ProcessSpec)>)
        ensures
            plan_of(*self, plan@, views(names@)),
    {
        let n = names.len();
        let mut plan: Vec<(String, ProcessSpec)> = Vec::new();
        let mut i: usize = 0;
        while i < n
            invariant
                n == names@.len(),
                i <= n,
                plan_of(*self, plan@, views(names@).take(i as int)),
            decreases n - i,
        {
            let name = &names[i];
            let ghost t = views(names@).take(i + 1);
            proof {
                assert(t.drop_last() =~= views(names@).take(i as int));
                assert(t.last() == name@);
            }
            match self.services.get(name.as_str()) {
                Some(m) => {
                    if m.definition.enabled {
                        let spec = ProcessSpec::from_service(&m.definition);
                        plan.push((name.clone(), spec));
                    }
                },
                None => {},
            }
            assert(plan_of(*self, plan@, t));
            i += 1;
        }
        assert(views(names@).take(n as int) =~= views(names@));
        plan
    }

    /// The boot execution plan: the enabled services in start order, each
    /// with its spawn specification. Fails when the registered services have
    /// no start order.
    pub fn boot_execution_plan(&self) -> (r: Result<Vec<(String, ProcessSpec)>, DependencyError>)
        ensures
            ({
                let d = all_defs(self.services.items());
                match r {
                    Ok(plan) => exists|o: Seq<Seq<char>>|
                        all_defined(d) && greedy(d, o) && o.len() == d.len() && plan_of(
                            *self,
                            plan@,
                            o,
                        ),
                    Err(e) => order_error(d, e),
                }
            }),
    {
        let defs = self.definitions();
        match Self::resolve_service_order(defs.as_slice()) {
            Ok(order) => {
                let plan = self.plan_for(&order);
                assert(plan_of(*self, plan@, views(order@)));
                Ok(plan)
            },
            Err(e) => Err(e),
        }
    }

    /// The boot execution plan in start waves: the enabled services of each
    /// wave, each with its spawn specification, leaving out waves with no
    /// enabled service. Fails when the registered services have no start
    /// waves.
    pub fn boot_execution_plan_waves(&self) -> (r: Result<Vec<Vec<(String, ProcessSpec)>>, DependencyError>)
        ensures
            ({
                let d = all_defs(self.services.items());
                match r {
                    Ok(plan) => exists|ws: Seq<Seq<Seq<char>>>|
                        all_defined(d) && layered(d, ws) && ws.flatten().len() == d.len() && plan@.len()
                            == enabled_waves(*self, ws).len() && forall|k: int|
                            0 <= k < plan@.len() ==> plan_of(
                                *self,
                                #[trigger] plan@[k]@,
                                enabled_waves(*self, ws)[k],
                            ),
                    Err(e) => wave_error(d, e),
                }
            }),
    {
        let defs = self.definitions();
        match Self::resolve_service_waves(defs.as_slice()) {
            Ok(waves) => {
                let ghost ws = wave_views(waves@);
                let n = waves.len();
                let mut plan: Vec<Vec<(String, ProcessSpec)>> = Vec::new();
                let mut i: usize = 0;
                while i < n
                    invariant
                        n == waves@.len(),
                        ws == wave_views(waves@),
                        i <= n,
                        plan@.len() == enabled_waves(*self, ws.take(i as int)).len(),
                        forall|k: int|
                            0 <= k < plan@.len() ==> plan_of(
                                *self,
                                #[trigger] plan@[k]@,
                                enabled_waves(*self, ws.take(i as int))[k],
                            ),
                    decreases n - i,
                {
                    let w = self.plan_for(&waves[i]);
                    let ghost t = ws.take(i + 1);
                    proof {
                        assert(t.drop_last() =~= ws.take(i as int));
                        assert(t.last() == views(waves@[i as int]@));
                    }
                    let ghost before = plan@;
                    assert(enabled_names(*self, t.last()).len() == w@.len());
                    if w.len() > 0 {
                        assert(enabled_waves(*self, t) == enabled_waves(*self, t.drop_last()).push(
                            t.last(),
                        ));
                        plan.push(w);
                        assert forall|k: int| 0 <= k < plan@.len() implies plan_of(
                            *self,
                            #[trigger] plan@[k]@,
                            enabled_waves(*self, t)[k],
                        ) by {
                            if k < before.len() {
                                assert(plan@[k] == before[k]);
                            }
                        }
                    } else {
                        assert(enabled_waves(*self, t) == enabled_waves(*self, t.drop_last()));
                    }
                    i += 1;
                }
                assert(ws.take(n as int) =~= ws);
                Ok(plan)
            },
            Err(e) => Err(e),
        }
    }

    /// What to do when service `service_name` exits with `exit_status`:
    /// unknown services and the `Never` policy are ignored, as is a clean exit
    /// under `OnFailure`; past the restart limit the service is given up;
    /// otherwise it is restarted after the backoff delay.
    pub fn on_service_crash(&self, service_name: &str, exit_status: &ExitStatus) -> (a: CrashAction)
        ensures
            crash_action_ok(a, self.svc(service_name@), *exit_status),
            self.svc(service_name@) is None ==> a is Ignore,
            self.svc(service_name@) matches Some(m) ==> (m.definition.restart_policy is Always && below_limit(m)
                ==> (a matches CrashAction::Restart { delay_ms } && delay_ms == backoff_spec(
                m.definition.restart_config.base_delay_ms as nat,
                m.definition.restart_config.max_delay_ms as nat,
                m.restart_count as nat,
            ))),
    {
        let svc = match self.services.get(service_name) {
            Some(s) => s,
            None => {
                return CrashAction::Ignore;
            },
        };
        let rcfg = &svc.definition.restart_config;
        let n = svc.restart_count;
        match svc.definition.restart_policy {
            RestartPolicy::Never => CrashAction::Ignore,
            RestartPolicy::Always => {
                if rcfg.limit_exceeded(n) {
                    CrashAction::GiveUp { reason: give_up_text(n, rcfg.max_restarts, false) }
                } else {
                    CrashAction::Restart { delay_ms: rcfg.backoff_delay(n) }
                }
            },
            RestartPolicy::OnFailure => {
                if *exit_status == ExitStatus::Code(0) {
                    CrashAction::Ignore
                } else if rcfg.limit_exceeded(n) {
                    CrashAction::GiveUp { reason: give_up_text(n, rcfg.max_restarts, true) }
                } else {
                    CrashAction::Restart { delay_ms: rcfg.backoff_delay(n) }
                }
            },
        }
    }

    /// A lifecycle event of `service`, stamped now.
    pub fn record_event(&self, service: &str, event_type: ServiceEventType) -> (e: ServiceEvent)
        ensures
            e.service@ == service@,
            e.event_type == event_type,
            e.details is None,
    {
        ServiceEvent { timestamp: now_ms(), service: owned(service), event_type, details: None }
    }

    /// The emergency shell configuration.
    pub fn emergency_shell_config(&self) -> (c: EmergencyShellConfig)
        ensures
            c.shell_path@ == "/usr/bin/agnoshi"@,
            !c.require_auth,
            c.auth_password_hash is None,
    {
        EmergencyShellConfig::default()
    }
}

/// The reason for giving up after `count` of `max` restarts.
fn give_up_text(count: u32, max: u32, after_failures: bool) -> (s: String)
    ensures
        s@ == give_up_reason(count, max, after_failures),
{
    let mut s = if after_failures {
        owned("exceeded restart limit after failures (")
    } else {
        owned("exceeded restart limit (")
    };
    push_u64(&mut s, count as u64);
    push_str(&mut s, "/");
    push_u64(&mut s, max as u64);
    push_str(&mut s, " restarts)");
    s
}

} // verus!
