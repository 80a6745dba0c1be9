//! Shutdown planning and runlevel switching.

use vstd::prelude::*;

use crate::deps::{all_defined, greedy, order_error, views, DependencyError};
use crate::init::ArgonautInit;
use crate::namemap::{has_key, key_views, lookup, sorted_keys, NameMap};
use crate::registry::all_defs;
use crate::text::{concat2, dec, owned, push_str, push_u64, str_lt};
use crate::types::{
    string_views, BootMode, ManagedService, ProcessSpec, Runlevel, RunlevelSwitchPlan, SafeCommand,
    ServiceState, ServiceTarget, ShutdownAction, ShutdownPlan, ShutdownStep, ShutdownStepStatus,
    ShutdownType, StringMap,
};

verus! {

/// `o` is a service that is running or starting.
pub open spec fn is_active(o: Option<ManagedService>) -> bool {
    match o {
        Some(m) => m.state is Running || m.state is Starting,
        None => false,
    }
}

/// The names of `order` whose services are running or starting, in order.
pub open spec fn active_names(init: ArgonautInit, order: Seq<Seq<char>>) -> Seq<Seq<char>>
    decreases order.len(),
{
    if order.len() == 0 {
        Seq::empty()
    } else {
        let p = active_names(init, order.drop_last());
        if is_active(init.svc(order.last())) {
            p.push(order.last())
        } else {
            p
        }
    }
}

/// The shutdown broadcast: `AGNOS system <type> in <seconds> seconds`.
pub open spec fn wall_text(t: ShutdownType, timeout_ms: u64) -> Seq<char> {
    "AGNOS system "@ + t.text() + " in "@ + dec((timeout_ms / 1000) as nat) + " seconds"@
}

/// `s` is a pending step with this description and timeout.
pub open spec fn pending_shutdown_step(s: ShutdownStep, description: Seq<char>, timeout_ms: u64) -> bool {
    s.description@ == description && s.timeout_ms == timeout_ms && s.status == ShutdownStepStatus::Pending
}

/// `plan` is the shutdown plan of type `t` with timeout `timeout_ms` that
/// stops the services `stops` in that order.
pub open spec fn shutdown_plan_ok(plan: ShutdownPlan, t: ShutdownType, timeout_ms: u64, stops: Seq<Seq<char>>) -> bool {
    let s = plan.steps@;
    let n = stops.len() as int;
    &&& plan.shutdown_type == t
    &&& plan.timeout_ms == timeout_ms
    &&& plan.wall_message matches Some(m) && m@ == wall_text(t, timeout_ms)
    &&& s.len() == n + 7
    &&& pending_shutdown_step(s[0], "Broadcast shutdown warning"@, 1000)
    &&& s[0].action matches ShutdownAction::WallMessage(m) && m@ == wall_text(t, timeout_ms)
    &&& pending_shutdown_step(s[1], "Notify agents to save state"@, 5000)
    &&& s[1].action == ShutdownAction::NotifyAgents
    &&& forall|k: int|
        0 <= k < n ==> pending_shutdown_step(#[trigger] s[2 + k], "Stop service: "@ + stops[k], 5000)
            && (s[2 + k].action matches ShutdownAction::StopService { name, signal } && name@ == stops[k]
            && signal == 15)
    &&& pending_shutdown_step(s[n + 2], "Sync filesystem buffers"@, 3000)
    &&& s[n + 2].action == ShutdownAction::SyncFilesystems
    &&& pending_shutdown_step(s[n + 3], "Unmount filesystems"@, 5000)
    &&& s[n + 3].action == ShutdownAction::UnmountFilesystems
    &&& pending_shutdown_step(s[n + 4], "Deactivate swap"@, 2000)
    &&& s[n + 4].action == ShutdownAction::SwapOff
    &&& pending_shutdown_step(s[n + 5], "Close encrypted volumes"@, 3000)
    &&& s[n + 5].action == ShutdownAction::CloseLuks
    &&& pending_shutdown_step(s[n + 6], "Execute "@ + t.text(), 1000)
    &&& s[n + 6].action == ShutdownAction::KernelAction(t)
}

/// A shutdown plan stops services gracefully: every `StopService` step
/// sends SIGTERM (15), and there is one per service to stop, in order;
/// killing is never part of the plan.
pub proof fn lemma_shutdown_stops_gracefully(plan: ShutdownPlan, t: ShutdownType, timeout_ms: u64, stops: Seq<Seq<char>>)
    requires
        shutdown_plan_ok(plan, t, timeout_ms, stops),
    ensures
        forall|k: int|
            0 <= k < plan.steps@.len() ==> ((#[trigger] plan.steps@[k]).action matches ShutdownAction::StopService {
                signal,
                ..
            } ==> signal == 15),
        forall|k: int| 0 <= k < plan.steps@.len() ==> !((#[trigger] plan.steps@[k]).action is ForceKillService),
        forall|k: int|
            0 <= k < stops.len() ==> ((#[trigger] plan.steps@[2 + k]).action matches ShutdownAction::StopService {
                name,
                ..
            } && name@ == stops[k]),
{
    let s = plan.steps@;
    let n = stops.len() as int;
    assert forall|k: int| 0 <= k < s.len() implies ((#[trigger] s[k]).action matches ShutdownAction::StopService {
        signal,
        ..
    } ==> signal == 15) && !(s[k].action is ForceKillService) by {
        if 2 <= k < n + 2 {
            assert(pending_shutdown_step(s[2 + (k - 2)], "Stop service: "@ + stops[k - 2], 5000));
        }
    }
    assert forall|k: int| 0 <= k < stops.len() implies ((#[trigger] s[2 + k]).action matches ShutdownAction::StopService {
        name,
        ..
    } && name@ == stops[k]) by {
        assert(pending_shutdown_step(s[2 + k], "Stop service: "@ + stops[k], 5000));
    }
}

/// Each name of `active_names(init, order)` stands in `order`, and two of
/// them stand in the same order there.
proof fn lemma_active_names_in_order(init: ArgonautInit, order: Seq<Seq<char>>, a: int, b: int)
    requires
        0 <= a < b < active_names(init, order).len(),
    ensures
        exists|p: int, q: int|
            0 <= p < q < order.len() && order[p] == active_names(init, order)[a] && order[q] == active_names(
                init,
                order,
            )[b],
    decreases order.len(),
{
    let o = order.drop_last();
    let an = active_names(init, o);
    if b < an.len() {
        lemma_active_names_in_order(init, o, a, b);
        let (p, q) = choose|p: int, q: int| 0 <= p < q < o.len() && o[p] == an[a] && o[q] == an[b];
        assert(order[p] == o[p] && order[q] == o[q]);
    } else {
        lemma_active_names_member(init, o, a);
        let p = choose|p: int| 0 <= p < o.len() && o[p] == an[a];
        assert(order[p] == o[p]);
        assert(order[order.len() - 1] == order.last());
    }
}

/// Each name of `active_names(init, order)` stands in `order`.
proof fn lemma_active_names_member(init: ArgonautInit, order: Seq<Seq<char>>, a: int)
    requires
        0 <= a < active_names(init, order).len(),
    ensures
        exists|p: int| 0 <= p < order.len() && order[p] == active_names(init, order)[a],
    decreases order.len(),
{
    let o = order.drop_last();
    let an = active_names(init, o);
    if a < an.len() {
        lemma_active_names_member(init, o, a);
        let p = choose|p: int| 0 <= p < o.len() && o[p] == an[a];
        assert(order[p] == o[p]);
    } else {
        assert(order[order.len() - 1] == order.last());
    }
}

/// A shutdown stops dependents first: when services are stopped in the
/// reverse of a start order, no service is stopped after one it depends
/// on.
pub proof fn lemma_shutdown_stops_dependents_first(init: ArgonautInit, start: Seq<Seq<char>>, a: int, b: int, i: int, j: int)
    requires
        greedy(all_defs(init.services.items()), start),
        0 <= a < b < active_names(init, start.reverse()).len(),
        0 <= i < all_defs(init.services.items()).len(),
        all_defs(init.services.items())[i].name@ == active_names(init, start.reverse())[b],
        0 <= j < all_defs(init.services.items())[i].depends_on@.len(),
    ensures
        all_defs(init.services.items())[i].depends_on@[j]@ != active_names(init, start.reverse())[a],
{
    let d = all_defs(init.services.items());
    let rev = start.reverse();
    let stops = active_names(init, rev);
    lemma_active_names_in_order(init, rev, a, b);
    let (p, q) = choose|p: int, q: int| 0 <= p < q < rev.len() && rev[p] == stops[a] && rev[q] == stops[b];
    let l = start.len() as int;
    let ka = l - 1 - p;
    let kb = l - 1 - q;
    assert(rev[p] == start[ka]);
    assert(rev[q] == start[kb]);
    if d[i].depends_on@[j]@ == stops[a] {
        crate::deps::lemma_start_order_respects_dependencies(d, start, kb, i, j);
        let m = choose|m: int| 0 <= m < kb && start[m] == d[i].depends_on@[j]@;
        crate::deps::lemma_start_order_distinct(d, start);
        assert(start[m] == start[ka]);
    }
}

fn shutdown_step(description: String, action: ShutdownAction, timeout_ms: u64) -> (s: ShutdownStep)
    ensures
        s.description == description,
        s.action == action,
        s.timeout_ms == timeout_ms,
        s.status == ShutdownStepStatus::Pending,
{
    ShutdownStep { description, action, timeout_ms, status: ShutdownStepStatus::Pending }
}

impl ArgonautInit {
    /// The shutdown plan: broadcast a warning, notify agents, stop the
    /// running and starting services in shutdown order, sync, unmount, turn
    /// off swap, close encrypted volumes, and make the final kernel call.
    /// Fails when the services have no start order.
    pub fn plan_shutdown(&self, shutdown_type: ShutdownType) -> (r: Result<ShutdownPlan, DependencyError>)
        ensures
            ({
                let d = all_defs(self.services.items());
                match r {
                    Ok(plan) => exists|start: Seq<Seq<char>>|
                        all_defined(d) && greedy(d, start) && start.len() == d.len() && shutdown_plan_ok(
                            plan,
                            shutdown_type,
                            self.config.shutdown_timeout_ms,
                            active_names(*self, start.reverse()),
                        ),
                    Err(e) => order_error(d, e),
                }
            }),
            r matches Ok(plan) ==> forall|k: int|
                0 <= k < plan.steps@.len() ==> ((#[trigger] plan.steps@[k]).action matches ShutdownAction::StopService {
                    signal,
                    ..
                } ==> signal == 15),
    {
        let order = match self.shutdown_order() {
            Ok(o) => o,
            Err(e) => {
                return Err(e);
            },
        };
        let ghost start = views(order@).reverse();
        let timeout = self.config.shutdown_timeout_ms;
        let mut wall = owned("AGNOS system ");
        push_str(&mut wall, shutdown_type.to_string().as_str());
        push_str(&mut wall, " in ");
        push_u64(&mut wall, timeout / 1000);
        push_str(&mut wall, " seconds");
        let mut steps: Vec<ShutdownStep> = Vec::new();
        steps.push(
            shutdown_step(
                owned("Broadcast shutdown warning"),
                ShutdownAction::WallMessage(wall.clone()),
                1000,
            ),
        );
        steps.push(shutdown_step(owned("Notify agents to save state"), ShutdownAction::NotifyAgents, 5000));
        let n = order.len();
        let mut i: usize = 0;
        assert(views(order@).take(0) =~= Seq::<Seq<char>>::empty());
        while i < n
            invariant
                n == order@.len(),
                i <= n,
                steps@.len() == active_names(*self, views(order@).take(i as int)).len() + 2,
                pending_shutdown_step(steps@[0], "Broadcast shutdown warning"@, 1000),
                steps@[0].action matches ShutdownAction::WallMessage(m) && m@ == wall@,
                pending_shutdown_step(steps@[1], "Notify agents to save state"@, 5000),
                steps@[1].action == ShutdownAction::NotifyAgents,
                forall|k: int|
                    0 <= k < active_names(*self, views(order@).take(i as int)).len() ==> {
                        let nm = active_names(*self, views(order@).take(i as int))[k];
                        pending_shutdown_step(#[trigger] steps@[2 + k], "Stop service: "@ + nm, 5000)
                            && (steps@[2 + k].action matches ShutdownAction::StopService { name, signal }
                            && name@ == nm && signal == 15)
                    },
            decreases n - i,
        {
            let name = &order[i];
            let ghost t = views(order@).take(i + 1);
            let ghost before = active_names(*self, views(order@).take(i as int));
            proof {
                assert(t.drop_last() =~= views(order@).take(i as int));
                assert(t.last() == name@);
            }
            let active = match self.services.get(name.as_str()) {
                Some(svc) => svc.state.is_active(),
                None => false,
            };
            if active {
                let ghost old_steps = steps@;
                steps.push(
                    shutdown_step(
                        concat2("Stop service: ", name.as_str()),
                        ShutdownAction::StopService { name: name.clone(), signal: 15 },
                        5000,
                    ),
                );
                proof {
                    assert(active_names(*self, t) == before.push(name@));
                    assert forall|k: int| 0 <= k < before.len() + 1 implies {
                        let nm = active_names(*self, t)[k];
                        pending_shutdown_step(#[trigger] steps@[2 + k], "Stop service: "@ + nm, 5000)
                            && (steps@[2 + k].action matches ShutdownAction::StopService {
                            name,
                            signal,
                        } && name@ == nm && signal == 15)
                    } by {
                        if k < before.len() {
                            assert(steps@[2 + k] == old_steps[2 + k]);
                        }
                    }
                }
            } else {
                assert(active_names(*self, t) == before);
            }
            i += 1;
        }
        assert(views(order@).take(n as int) =~= views(order@));
        assert(start.reverse() =~= views(order@));
        let ghost stops = active_names(*self, views(order@));
        let m = steps.len();
        steps.push(shutdown_step(owned("Sync filesystem buffers"), ShutdownAction::SyncFilesystems, 3000));
        steps.push(shutdown_step(owned("Unmount filesystems"), ShutdownAction::UnmountFilesystems, 5000));
        steps.push(shutdown_step(owned("Deactivate swap"), ShutdownAction::SwapOff, 2000));
        steps.push(shutdown_step(owned("Close encrypted volumes"), ShutdownAction::CloseLuks, 3000));
        steps.push(
            shutdown_step(
                concat2("Execute ", shutdown_type.to_string().as_str()),
                ShutdownAction::KernelAction(shutdown_type),
                1000,
            ),
        );
        let plan = ShutdownPlan {
            shutdown_type,
            steps,
            timeout_ms: timeout,
            wall_message: Some(wall),
        };
        assert(shutdown_plan_ok(plan, shutdown_type, timeout, stops));
        proof {
            lemma_shutdown_stops_gracefully(plan, shutdown_type, timeout, stops);
        }
        Ok(plan)
    }
}

} // verus!

verus! {

/// Some target active at runlevel `rl` requires or wants service `n`.
pub open spec fn desired(targets: Seq<ServiceTarget>, rl: Runlevel, n: Seq<char>) -> bool {
    exists|t: int, k: int|
        0 <= t < targets.len() && targets[t].active_in@.contains(rl) && 0 <= k < (
        targets[t].requires@ + targets[t].wants@).len() && (#[trigger] (targets[t].requires@
            + targets[t].wants@)[k])@ == n
}

/// Each name sorts strictly before the next.
pub open spec fn strictly_sorted(s: Seq<Seq<char>>) -> bool {
    forall|a: int, b: int| 0 <= a < b < s.len() ==> str_lt(#[trigger] s[a], #[trigger] s[b])
}

/// `plan` is the switch of `init` to runlevel `to` under `targets`.
pub open spec fn switch_plan_ok(init: ArgonautInit, to: Runlevel, targets: Seq<ServiceTarget>, plan: RunlevelSwitchPlan) -> bool {
    let start = views(plan.services_to_start@);
    let stop = views(plan.services_to_stop@);
    &&& plan.from == Runlevel::of_boot_mode(init.config.boot_mode)
    &&& plan.to == to
    &&& plan.drop_to_shell == (to == Runlevel::Emergency || to == Runlevel::Rescue)
    &&& strictly_sorted(start)
    &&& strictly_sorted(stop)
    &&& forall|n: Seq<char>|
        #[trigger] start.contains(n) <==> (to != Runlevel::Emergency && desired(targets, to, n)
            && !is_active(init.svc(n)))
    &&& forall|n: Seq<char>|
        #[trigger] stop.contains(n) <==> (is_active(init.svc(n)) && (to == Runlevel::Emergency
            || !desired(targets, to, n)))
}

/// Keys of `items` taken in order: `out` holds, sorted, exactly the keys
/// among the first `i` that satisfy `keep`.
pub open spec fn picked<V>(items: Seq<(String, V)>, i: int, out: Seq<Seq<char>>, keep: spec_fn(Seq<char>) -> bool) -> bool {
    &&& strictly_sorted(out)
    &&& forall|a: int|
        0 <= a < out.len() ==> exists|j: int| 0 <= j < i && #[trigger] items[j].0@ == #[trigger] out[a]
    &&& forall|n: Seq<char>|
        #[trigger] out.contains(n) <==> (keep(n) && exists|j: int| 0 <= j < i && #[trigger] items[j].0@ == n)
}

/// Taking the next key keeps `picked`.
proof fn lemma_pick_next<V>(
    items: Seq<(String, V)>,
    i: int,
    out: Seq<Seq<char>>,
    keep: spec_fn(Seq<char>) -> bool,
    take: bool,
)
    requires
        sorted_keys(items),
        0 <= i < items.len(),
        picked(items, i, out, keep),
        take == keep(items[i].0@),
    ensures
        picked(items, i + 1, if take { out.push(items[i].0@) } else { out }, keep),
{
    let x = items[i].0@;
    let out2 = if take {
        out.push(x)
    } else {
        out
    };
    assert forall|a: int, b: int| 0 <= a < b < out2.len() implies str_lt(
        #[trigger] out2[a],
        #[trigger] out2[b],
    ) by {
        if b == out.len() {
            let j = choose|j: int| 0 <= j < i && #[trigger] items[j].0@ == out[a];
            assert(out2[a] == out[a]);
        } else {
            assert(out2[a] == out[a] && out2[b] == out[b]);
        }
    }
    assert forall|a: int| 0 <= a < out2.len() implies exists|j: int|
        0 <= j < i + 1 && #[trigger] items[j].0@ == #[trigger] out2[a] by {
        if a < out.len() {
            assert(out2[a] == out[a]);
            let j = choose|j: int| 0 <= j < i && #[trigger] items[j].0@ == out[a];
            assert(items[j].0@ == out2[a]);
        } else {
            assert(items[i].0@ == out2[a]);
        }
    }
    assert forall|n: Seq<char>| #[trigger] out2.contains(n) <==> (keep(n) && exists|j: int|
        0 <= j < i + 1 && items[j].0@ == n) by {
        if out2.contains(n) {
            let a = choose|a: int| 0 <= a < out2.len() && out2[a] == n;
            if a < out.len() {
                assert(out.contains(n));
            }
        }
        if keep(n) && exists|j: int| 0 <= j < i + 1 && items[j].0@ == n {
            let j = choose|j: int| 0 <= j < i + 1 && items[j].0@ == n;
            if j < i {
                assert(out.contains(n));
                let a = choose|a: int| 0 <= a < out.len() && out[a] == n;
                assert(out2[a] == n);
            } else {
                assert(out2[out.len() as int] == n);
            }
        }
    }
}

impl ArgonautInit {
    /// The services to start and stop to switch to runlevel `target`. For
    /// the emergency runlevel: stop every running or starting service and
    /// start none. Otherwise: start, alphabetically, every service that a
    /// target active at `target` requires or wants and that is not running
    /// or starting, and stop, alphabetically, every running or starting
    /// service that none wants. Emergency and rescue drop to the shell.
    pub fn plan_runlevel_switch(&self, target: Runlevel, targets: &[ServiceTarget]) -> (plan: RunlevelSwitchPlan)
        ensures
            switch_plan_ok(*self, target, targets@, plan),
    {
        let emergency = target == Runlevel::Emergency;
        // The wanted services, alphabetically.
        let mut wanted: NameMap<()> = NameMap::new();
        if !emergency {
            let nt = targets.len();
            let mut t: usize = 0;
            while t < nt
                invariant
                    nt == targets@.len(),
                    t <= nt,
                    forall|x: Seq<char>|
                        #[trigger] has_key(wanted.items(), x) <==> exists|a: int, k: int|
                            0 <= a < t && targets@[a].active_in@.contains(target) && 0 <= k < (
                            targets@[a].requires@ + targets@[a].wants@).len() && (#[trigger] (
                            targets@[a].requires@ + targets@[a].wants@)[k])@ == x,
                decreases nt - t,
            {
                let tg = &targets[t];
                if tg.is_active_in(target) {
                    let all = tg.all_services();
                    let m = all.len();
                    let mut k: usize = 0;
                    while k < m
                        invariant
                            nt == targets@.len(),
                            t < nt,
                            *tg == targets@[t as int],
                            tg.active_in@.contains(target),
                            m == all@.len(),
                            m == (tg.requires@ + tg.wants@).len(),
                            forall|c: int| 0 <= c < m ==> (#[trigger] all@[c])@ == (tg.requires@ + tg.wants@)[c]@,
                            k <= m,
                            forall|x: Seq<char>|
                                #[trigger] has_key(wanted.items(), x) <==> (exists|a: int, c: int|
                                    0 <= a < t && targets@[a].active_in@.contains(target) && 0 <= c < (
                                    targets@[a].requires@ + targets@[a].wants@).len() && (#[trigger] (
                                    targets@[a].requires@ + targets@[a].wants@)[c])@ == x) || (exists|c: int|
                                    0 <= c < k && (#[trigger] (tg.requires@ + tg.wants@)[c])@ == x),
                        decreases m - k,
                    {
                        let ghost before = wanted.items();
                        wanted.insert(owned(all[k]), ());
                        proof {
                            assert forall|x: Seq<char>| #[trigger] has_key(wanted.items(), x) <==> (exists|a: int, c: int|
                                0 <= a < t && targets@[a].active_in@.contains(target) && 0 <= c < (
                                targets@[a].requires@ + targets@[a].wants@).len() && (#[trigger] (
                                targets@[a].requires@ + targets@[a].wants@)[c])@ == x) || (exists|c: int|
                                0 <= c < k + 1 && (#[trigger] (tg.requires@ + tg.wants@)[c])@ == x) by {
                                if x == all@[k as int]@ {
                                    assert(lookup(wanted.items(), x) is Some);
                                    assert((tg.requires@ + tg.wants@)[k as int]@ == x);
                                } else {
                                    assert(lookup(wanted.items(), x) == lookup(before, x));
                                    if exists|c: int| 0 <= c < k + 1 && (#[trigger] (tg.requires@ + tg.wants@)[c])@ == x {
                                        let c = choose|c: int| 0 <= c < k + 1 && (#[trigger] (tg.requires@ + tg.wants@)[c])@ == x;
                                        assert(c != k);
                                    }
                                }
                            }
                        }
                        k += 1;
                    }
                    proof {
                        assert forall|x: Seq<char>| #[trigger] has_key(wanted.items(), x) <==> exists|a: int, c: int|
                            0 <= a < t + 1 && targets@[a].active_in@.contains(target) && 0 <= c < (
                            targets@[a].requires@ + targets@[a].wants@).len() && (#[trigger] (
                            targets@[a].requires@ + targets@[a].wants@)[c])@ == x by {
                            if exists|c: int| 0 <= c < m && (#[trigger] (tg.requires@ + tg.wants@)[c])@ == x {
                                let c = choose|c: int| 0 <= c < m && (#[trigger] (tg.requires@ + tg.wants@)[c])@ == x;
                                assert((targets@[t as int].requires@ + targets@[t as int].wants@)[c]@ == x);
                            }
                            if exists|a: int, c: int|
                                0 <= a < t + 1 && targets@[a].active_in@.contains(target) && 0 <= c < (
                                targets@[a].requires@ + targets@[a].wants@).len() && (#[trigger] (
                                targets@[a].requires@ + targets@[a].wants@)[c])@ == x {
                                let (a, c) = choose|a: int, c: int|
                                    0 <= a < t + 1 && targets@[a].active_in@.contains(target) && 0 <= c < (
                                    targets@[a].requires@ + targets@[a].wants@).len() && (#[trigger] (
                                    targets@[a].requires@ + targets@[a].wants@)[c])@ == x;
                                if a == t {
                                    assert((tg.requires@ + tg.wants@)[c]@ == x);
                                }
                            }
                        }
                    }
                } else {
                    proof {
                        assert forall|x: Seq<char>| #[trigger] has_key(wanted.items(), x) <==> exists|a: int, c: int|
                            0 <= a < t + 1 && targets@[a].active_in@.contains(target) && 0 <= c < (
                            targets@[a].requires@ + targets@[a].wants@).len() && (#[trigger] (
                            targets@[a].requires@ + targets@[a].wants@)[c])@ == x by {
                            if exists|a: int, c: int|
                                0 <= a < t + 1 && targets@[a].active_in@.contains(target) && 0 <= c < (
                                targets@[a].requires@ + targets@[a].wants@).len() && (#[trigger] (
                                targets@[a].requires@ + targets@[a].wants@)[c])@ == x {
                                let (a, c) = choose|a: int, c: int|
                                    0 <= a < t + 1 && targets@[a].active_in@.contains(target) && 0 <= c < (
                                    targets@[a].requires@ + targets@[a].wants@).len() && (#[trigger] (
                                    targets@[a].requires@ + targets@[a].wants@)[c])@ == x;
                                assert(a != t);
                            }
                        }
                    }
                }
                t += 1;
            }
        }
        assert forall|x: Seq<char>| #[trigger] has_key(wanted.items(), x) <==> (!emergency && desired(
            targets@,
            target,
            x,
        )) by {}
        // Services to start: wanted and not running or starting.
        let ghost keep_start = |x: Seq<char>| !is_active(self.svc(x));
        let mut start: Vec<String> = Vec::new();
        let nw = wanted.len();
        let mut i: usize = 0;
        while i < nw
            invariant
                nw == wanted.items().len(),
                i <= nw,
                sorted_keys(wanted.items()),
                keep_start == (|x: Seq<char>| !is_active(self.svc(x))),
                picked(wanted.items(), i as int, views(start@), keep_start),
                forall|x: Seq<char>| #[trigger] has_key(wanted.items(), x) <==> (!emergency && desired(
                    targets@,
                    target,
                    x,
                )),
                emergency == (target == Runlevel::Emergency),
            decreases nw - i,
        {
            let (k, _) = wanted.entry(i);
            let active = match self.services.get(k.as_str()) {
                Some(svc) => svc.state.is_active(),
                None => false,
            };
            proof {
                lemma_pick_next(wanted.items(), i as int, views(start@), keep_start, !active);
            }
            if !active {
                let ghost before = start@;
                start.push(k.clone());
                assert(views(start@) =~= views(before).push(wanted.items()[i as int].0@));
            }
            i += 1;
        }
        // Services to stop: running or starting and not wanted.
        let ghost keep_stop = |x: Seq<char>| is_active(self.svc(x)) && !has_key(wanted.items(), x);
        let mut stop: Vec<String> = Vec::new();
        let ns = self.services.len();
        let mut j: usize = 0;
        while j < ns
            invariant
                ns == self.services.items().len(),
                j <= ns,
                sorted_keys(self.services.items()),
                keep_stop == (|x: Seq<char>| is_active(self.svc(x)) && !has_key(wanted.items(), x)),
                picked(self.services.items(), j as int, views(stop@), keep_stop),
            decreases ns - j,
        {
            let (k, svc) = self.services.entry(j);
            let take = svc.state.is_active() && !wanted.contains_key(k.as_str());
            proof {
                crate::namemap::lemma_key_index_unique(self.services.items(), j as int);
                lemma_pick_next(self.services.items(), j as int, views(stop@), keep_stop, take);
            }
            if take {
                let ghost before = stop@;
                stop.push(k.clone());
                assert(views(stop@) =~= views(before).push(self.services.items()[j as int].0@));
            }
            j += 1;
        }
        proof {
            assert forall|n: Seq<char>| #[trigger] views(stop@).contains(n) <==> (is_active(self.svc(n))
                && (target == Runlevel::Emergency || !desired(targets@, target, n))) by {
                if is_active(self.svc(n)) {
                    assert(has_key(self.services.items(), n));
                    let j = choose|j: int| 0 <= j < self.services.items().len() && #[trigger] self.services.items()[j].0@ == n;
                }
            }
            assert forall|n: Seq<char>| #[trigger] views(start@).contains(n) <==> (target != Runlevel::Emergency
                && desired(targets@, target, n) && !is_active(self.svc(n))) by {
                if target != Runlevel::Emergency && desired(targets@, target, n) {
                    assert(has_key(wanted.items(), n));
                    let j = choose|j: int| 0 <= j < wanted.items().len() && #[trigger] wanted.items()[j].0@ == n;
                }
                if views(start@).contains(n) {
                    let j = choose|j: int| 0 <= j < wanted.items().len() && #[trigger] wanted.items()[j].0@ == n;
                    assert(has_key(wanted.items(), n));
                }
            }
        }
        RunlevelSwitchPlan {
            from: Runlevel::from_boot_mode(self.config.boot_mode),
            to: target,
            services_to_start: start,
            services_to_stop: stop,
            drop_to_shell: target == Runlevel::Emergency || target == Runlevel::Rescue,
        }
    }

    /// The boot mode of a runlevel, if it has one.
    pub fn runlevel_boot_mode(runlevel: Runlevel) -> (m: Option<BootMode>)
        ensures
            m == runlevel.boot_mode_of(),
    {
        runlevel.to_boot_mode()
    }
}

} // verus!
