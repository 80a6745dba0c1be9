//! Start order of services from their dependencies.
//!
//! A service may start once every service it depends on has started. The
//! start order takes, at each step, the alphabetically first service that may
//! start; the start waves group services by how many dependency levels lie
//! below them.

use vstd::prelude::*;

use crate::init::ArgonautInit;
use crate::namemap::{has_key, key_views, lookup, sorted_keys, NameMap};
use crate::text::{
    lemma_str_lt_asymmetric, lemma_str_lt_irreflexive, lemma_str_lt_total,
    lemma_str_lt_transitive, owned, push_str, push_u64, dec, str_eq, str_le, str_less, str_lt,
};
use crate::types::ServiceDefinition;

verus! {

/// The characters of each string.
pub open spec fn views(s: Seq<String>) -> Seq<Seq<char>> {
    s.map_values(|x: String| x@)
}

/// The definitions behind references.
pub open spec fn dv(s: Seq<&ServiceDefinition>) -> Seq<ServiceDefinition> {
    s.map_values(|d: &ServiceDefinition| *d)
}

/// `n` is the name of one of `defs`.
pub open spec fn is_service(defs: Seq<ServiceDefinition>, n: Seq<char>) -> bool {
    exists|i: int| 0 <= i < defs.len() && #[trigger] defs[i].name@ == n
}

/// Everything that a service named `n` depends on is in `done`.
pub open spec fn deps_met(defs: Seq<ServiceDefinition>, done: Seq<Seq<char>>, n: Seq<char>) -> bool {
    forall|i: int, j: int|
        0 <= i < defs.len() && defs[i].name@ == n && 0 <= j < defs[i].depends_on@.len()
            ==> done.contains(#[trigger] defs[i].depends_on@[j]@)
}

/// Dependency `j` of service `i` names no service.
pub open spec fn dep_missing(defs: Seq<ServiceDefinition>, i: int, j: int) -> bool {
    &&& 0 <= i < defs.len()
    &&& 0 <= j < defs[i].depends_on@.len()
    &&& !is_service(defs, defs[i].depends_on@[j]@)
}

/// Every dependency names a service.
pub open spec fn all_defined(defs: Seq<ServiceDefinition>) -> bool {
    forall|i: int, j: int| !#[trigger] dep_missing(defs, i, j)
}

/// `(i, j)` is the first missing dependency, services in order and each
/// service's dependencies in order.
pub open spec fn first_missing(defs: Seq<ServiceDefinition>, i: int, j: int) -> bool {
    &&& dep_missing(defs, i, j)
    &&& forall|a: int, b: int|
        #[trigger] dep_missing(defs, a, b) ==> (i < a || (i == a && j <= b))
}

/// Service `n` may start once `done` have started: it is a service, has not
/// started, and all it depends on has.
pub open spec fn ready(defs: Seq<ServiceDefinition>, done: Seq<Seq<char>>, n: Seq<char>) -> bool {
    is_service(defs, n) && !done.contains(n) && deps_met(defs, done, n)
}

/// `p[k]` is the alphabetically first service that may start after
/// `p[0..k]`.
pub open spec fn greedy_step(defs: Seq<ServiceDefinition>, p: Seq<Seq<char>>, k: int) -> bool {
    &&& ready(defs, p.take(k), p[k])
    &&& forall|n: Seq<char>| #[trigger] ready(defs, p.take(k), n) ==> str_le(p[k], n)
}

/// Every entry of `p` is the alphabetically first service that may start
/// after the entries before it.
pub open spec fn greedy(defs: Seq<ServiceDefinition>, p: Seq<Seq<char>>) -> bool {
    forall|k: int| 0 <= k < p.len() ==> #[trigger] greedy_step(defs, p, k)
}

/// No further service may start after `p`.
pub open spec fn stuck(defs: Seq<ServiceDefinition>, p: Seq<Seq<char>>) -> bool {
    forall|n: Seq<char>| !#[trigger] ready(defs, p, n)
}

/// `e` describes why `defs` has no start order: its first missing
/// dependency, or a cycle among the services left after the longest greedy
/// order.
pub open spec fn order_error(defs: Seq<ServiceDefinition>, e: DependencyError) -> bool {
    match e {
        DependencyError::Missing { service, dependency } => exists|i: int, j: int|
            first_missing(defs, i, j) && service@ == defs[i].name@ && dependency@
                == defs[i].depends_on@[j]@,
        DependencyError::Cycle { resolved, total } => all_defined(defs) && total == defs.len()
            && resolved < total && exists|p: Seq<Seq<char>>|
            greedy(defs, p) && stuck(defs, p) && p.len() == resolved,
    }
}

/// `e` describes why `defs` has no start waves: its first missing
/// dependency, or a cycle among the services left after the waves that can
/// start.
pub open spec fn wave_error(defs: Seq<ServiceDefinition>, e: DependencyError) -> bool {
    match e {
        DependencyError::Missing { service, dependency } => exists|i: int, j: int|
            first_missing(defs, i, j) && service@ == defs[i].name@ && dependency@
                == defs[i].depends_on@[j]@,
        DependencyError::Cycle { resolved, total } => all_defined(defs) && total == defs.len()
            && resolved < total && exists|ws: Seq<Seq<Seq<char>>>|
            layered(defs, ws) && stuck(defs, ws.flatten()) && ws.flatten().len() == resolved,
    }
}

/// Why no start order exists.
#[derive(Debug, PartialEq, Eq)]
pub enum DependencyError {
    /// `service` depends on `dependency`, which names no service.
    Missing { service: String, dependency: String },
    /// Only `resolved` of the `total` services could be ordered: the rest
    /// depend on each other in a cycle.
    Cycle { resolved: usize, total: usize },
}

impl DependencyError {
    pub open spec fn text(self) -> Seq<char> {
        match self {
            DependencyError::Missing { service, dependency } => "service '"@ + service@
                + "' depends on '"@ + dependency@ + "' which is not defined"@,
            DependencyError::Cycle { resolved, total } =>
                "cycle detected in service dependencies — resolved "@ + dec(resolved as nat)
                + " of "@ + dec(total as nat) + " services"@,
        }
    }

    /// The error message.
    pub fn to_string(&self) -> (s: String)
        ensures
            s@ == self.text(),
    {
        match self {
            DependencyError::Missing { service, dependency } => {
                let mut s = owned("service '");
                push_str(&mut s, service.as_str());
                push_str(&mut s, "' depends on '");
                push_str(&mut s, dependency.as_str());
                push_str(&mut s, "' which is not defined");
                s
            },
            DependencyError::Cycle { resolved, total } => {
                let mut s = owned("cycle detected in service dependencies — resolved ");
                push_u64(&mut s, *resolved as u64);
                push_str(&mut s, " of ");
                push_u64(&mut s, *total as u64);
                push_str(&mut s, " services");
                s
            },
        }
    }
}

/// Whether `n` is one of `v`.
pub fn contains_name(v: &Vec<String>, n: &str) -> (b: bool)
    ensures
        b == views(v@).contains(n@),
{
    let len = v.len();
    let mut i: usize = 0;
    while i < len
        invariant
            len == v@.len(),
            i <= len,
            forall|k: int| 0 <= k < i ==> v@[k]@ != n@,
        decreases len - i,
    {
        if str_eq(v[i].as_str(), n) {
            assert(views(v@)[i as int] == n@);
            return true;
        }
        i += 1;
    }
    assert forall|k: int| 0 <= k < views(v@).len() implies views(v@)[k] != n@ by {
        assert(views(v@)[k] == v@[k]@);
    }
    false
}

/// Whether `n` names one of `defs`.
fn is_service_exec(defs: &[&ServiceDefinition], n: &str) -> (b: bool)
    ensures
        b == is_service(dv(defs@), n@),
{
    let len = defs.len();
    let mut i: usize = 0;
    while i < len
        invariant
            len == dv(defs@).len(),
            i <= len,
            forall|k: int| 0 <= k < i ==> dv(defs@)[k].name@ != n@,
        decreases len - i,
    {
        assert(dv(defs@)[i as int] == *defs@[i as int]);
        if str_eq(defs[i].name.as_str(), n) {
            return true;
        }
        i += 1;
    }
    false
}

/// Whether everything that services named `n` depend on is in `done`.
fn deps_met_exec(defs: &[&ServiceDefinition], done: &Vec<String>, n: &str) -> (b: bool)
    ensures
        b == deps_met(dv(defs@), views(done@), n@),
{
    let len = defs.len();
    let mut i: usize = 0;
    while i < len
        invariant
            len == dv(defs@).len(),
            i <= len,
            forall|a: int, b: int|
                0 <= a < i && dv(defs@)[a].name@ == n@ && 0 <= b < dv(defs@)[a].depends_on@.len()
                    ==> views(done@).contains(#[trigger] dv(defs@)[a].depends_on@[b]@),
        decreases len - i,
    {
        let d = defs[i];
        if str_eq(d.name.as_str(), n) {
            let m = d.depends_on.len();
            let mut j: usize = 0;
            while j < m
                invariant
                    len == dv(defs@).len(),
                    i < len,
                    d == dv(defs@)[i as int],
                    d.name@ == n@,
                    m == d.depends_on@.len(),
                    j <= m,
                    forall|b: int|
                        0 <= b < j ==> views(done@).contains(#[trigger] d.depends_on@[b]@),
                decreases m - j,
            {
                if !contains_name(done, d.depends_on[j].as_str()) {
                    assert(!views(done@).contains(dv(defs@)[i as int].depends_on@[j as int]@));
                    return false;
                }
                j += 1;
            }
        }
        i += 1;
    }
    true
}

/// The first missing dependency, if any.
fn find_missing(defs: &[&ServiceDefinition]) -> (r: Option<(usize, usize)>)
    ensures
        match r {
            Some((i, j)) => first_missing(dv(defs@), i as int, j as int),
            None => all_defined(dv(defs@)),
        },
{
    let len = defs.len();
    let mut i: usize = 0;
    while i < len
        invariant
            len == dv(defs@).len(),
            i <= len,
            forall|a: int, b: int| a < i ==> !#[trigger] dep_missing(dv(defs@), a, b),
        decreases len - i,
    {
        let d = defs[i];
        let m = d.depends_on.len();
        let mut j: usize = 0;
        while j < m
            invariant
                len == dv(defs@).len(),
                i < len,
                d == dv(defs@)[i as int],
                m == d.depends_on@.len(),
                j <= m,
                forall|a: int, b: int| a < i ==> !#[trigger] dep_missing(dv(defs@), a, b),
                forall|b: int| b < j ==> !#[trigger] dep_missing(dv(defs@), i as int, b),
            decreases m - j,
        {
            if !is_service_exec(defs, d.depends_on[j].as_str()) {
                return Some((i, j));
            }
            j += 1;
        }
        i += 1;
    }
    None
}

/// Appending the next greedy choice keeps the sequence greedy.
proof fn lemma_greedy_push(defs: Seq<ServiceDefinition>, p: Seq<Seq<char>>, x: Seq<char>)
    requires
        greedy(defs, p),
        ready(defs, p, x),
        forall|n: Seq<char>| #[trigger] ready(defs, p, n) ==> str_le(x, n),
    ensures
        greedy(defs, p.push(x)),
{
    let q = p.push(x);
    assert forall|k: int| 0 <= k < q.len() implies #[trigger] greedy_step(defs, q, k) by {
        if k < p.len() {
            assert(q.take(k) =~= p.take(k));
            assert(greedy_step(defs, p, k));
        } else {
            assert(q.take(k) =~= p);
        }
    }
}

/// `views` of a pushed sequence.
proof fn lemma_views_push(s: Seq<String>, x: String)
    ensures
        views(s.push(x)) == views(s).push(x@),
{
    assert(views(s.push(x)) =~= views(s).push(x@));
}

/// `w` is the wave that may start once `done` have started: exactly the
/// services that may start then, in alphabetical order, and at least one.
pub open spec fn wave_of(defs: Seq<ServiceDefinition>, done: Seq<Seq<char>>, w: Seq<Seq<char>>) -> bool {
    &&& w.len() > 0
    &&& forall|a: int, b: int| 0 <= a < b < w.len() ==> str_lt(#[trigger] w[a], #[trigger] w[b])
    &&& forall|n: Seq<char>| #[trigger] w.contains(n) <==> ready(defs, done, n)
}

/// Each wave of `ws` is the wave that may start once the waves before it
/// have started.
pub open spec fn layered(defs: Seq<ServiceDefinition>, ws: Seq<Seq<Seq<char>>>) -> bool {
    forall|k: int|
        0 <= k < ws.len() ==> #[trigger] wave_of(defs, ws.take(k).flatten(), ws[k])
}

/// The characters of each name of each wave.
pub open spec fn wave_views(ws: Seq<Vec<String>>) -> Seq<Seq<Seq<char>>> {
    ws.map_values(|w: Vec<String>| views(w@))
}

/// The names of `defs`.
pub open spec fn def_names(defs: Seq<ServiceDefinition>) -> Seq<Seq<char>> {
    defs.map_values(|d: ServiceDefinition| d.name@)
}

/// Distinct service names are no more than the services.
proof fn lemma_distinct_names_bound(defs: Seq<ServiceDefinition>, p: Seq<Seq<char>>)
    requires
        p.no_duplicates(),
        forall|k: int| 0 <= k < p.len() ==> is_service(defs, #[trigger] p[k]),
    ensures
        p.len() <= defs.len(),
{
    let names = def_names(defs);
    p.unique_seq_to_set();
    names.lemma_cardinality_of_set();
    assert(p.to_set().subset_of(names.to_set())) by {
        assert forall|x: Seq<char>| p.to_set().contains(x) implies names.to_set().contains(x) by {
            let k = choose|k: int| 0 <= k < p.len() && p[k] == x;
            assert(is_service(defs, p[k]));
            let i = choose|i: int| 0 <= i < defs.len() && #[trigger] defs[i].name@ == p[k];
            assert(names[i] == x);
        }
    }
    vstd::set_lib::lemma_len_subset(p.to_set(), names.to_set());
}

impl ArgonautInit {
    /// Start order of `services`: each entry is the alphabetically first
    /// service whose dependencies have all started before it. Fails with
    /// the first dependency that names no service, or when the services
    /// that are left depend on each other in a cycle.
    pub fn resolve_service_order(services: &[&ServiceDefinition]) -> (r: Result<
        Vec<String>,
        DependencyError,
    >)
        ensures
            match r {
                Ok(order) => all_defined(dv(services@)) && greedy(dv(services@), views(order@))
                    && order@.len() == dv(services@).len(),
                Err(DependencyError::Missing { service, dependency }) => exists|i: int, j: int|
                    first_missing(dv(services@), i, j) && service@ == dv(services@)[i].name@
                        && dependency@ == dv(services@)[i].depends_on@[j]@,
                Err(DependencyError::Cycle { resolved, total }) => all_defined(dv(services@)) && total
                    == dv(services@).len() && resolved < total && exists|p: Seq<Seq<char>>|
                    greedy(dv(services@), p) && stuck(dv(services@), p) && p.len() == resolved,
            },
    {
        match find_missing(services) {
            Some((i, j)) => {
                return Err(
                    DependencyError::Missing {
                        service: services[i].name.clone(),
                        dependency: services[i].depends_on[j].clone(),
                    },
                );
            },
            None => {},
        }
        let n = services.len();
        let mut out: Vec<String> = Vec::new();
        while out.len() < n
            invariant
                n == dv(services@).len(),
                out@.len() <= n,
                all_defined(dv(services@)),
                greedy(dv(services@), views(out@)),
            decreases n - out@.len(),
        {
            let ghost done = views(out@);
            let mut best: Option<usize> = None;
            let mut i: usize = 0;
            while i < n
                invariant
                    n == dv(services@).len(),
                    i <= n,
                    done == views(out@),
                    match best {
                        Some(b) => b < n && ready(dv(services@), done, dv(services@)[b as int].name@)
                            && forall|k: int|
                            0 <= k < i && ready(dv(services@), done, #[trigger] dv(services@)[k].name@)
                                ==> str_le(dv(services@)[b as int].name@, dv(services@)[k].name@),
                        None => forall|k: int|
                            0 <= k < i ==> !ready(dv(services@), done, #[trigger] dv(services@)[k].name@),
                    },
                decreases n - i,
            {
                let name = services[i].name.as_str();
                if !contains_name(&out, name) && deps_met_exec(services, &out, name) {
                    assert(is_service(dv(services@), dv(services@)[i as int].name@));
                    match best {
                        None => {
                            best = Some(i);
                        },
                        Some(b) => {
                            let ghost nb = dv(services@)[b as int].name@;
                            let ghost ni = dv(services@)[i as int].name@;
                            if str_less(name, services[b].name.as_str()) {
                                best = Some(i);
                                assert forall|k: int|
                                    0 <= k < i + 1 && ready(
                                        dv(services@),
                                        done,
                                        #[trigger] dv(services@)[k].name@,
                                    ) implies str_le(ni, dv(services@)[k].name@) by {
                                    if k < i {
                                        let nk = dv(services@)[k].name@;
                                        if str_lt(nb, nk) {
                                            lemma_str_lt_transitive(ni, nb, nk);
                                        }
                                    }
                                }
                            } else {
                                proof {
                                    lemma_str_lt_total(ni, nb);
                                }
                            }
                        },
                    }
                }
                i += 1;
            }
            match best {
                None => {
                    proof {
                        assert forall|m: Seq<char>| !#[trigger] ready(dv(services@), done, m) by {
                            if ready(dv(services@), done, m) {
                                let k = choose|k: int|
                                    0 <= k < dv(services@).len() && #[trigger] dv(services@)[k].name@
                                        == m;
                                assert(!ready(dv(services@), done, dv(services@)[k].name@));
                            }
                        }
                    }
                    assert(greedy(dv(services@), done) && stuck(dv(services@), done) && done.len()
                        == out@.len());
                    return Err(DependencyError::Cycle { resolved: out.len(), total: n });
                },
                Some(b) => {
                    let x = services[b].name.clone();
                    proof {
                        assert forall|m: Seq<char>| #[trigger]
                            ready(dv(services@), done, m) implies str_le(x@, m) by {
                            let k = choose|k: int|
                                0 <= k < dv(services@).len() && #[trigger] dv(services@)[k].name@ == m;
                            assert(ready(dv(services@), done, dv(services@)[k].name@));
                        }
                        lemma_greedy_push(dv(services@), done, x@);
                        lemma_views_push(out@, x);
                    }
                    out.push(x);
                },
            }
        }
        Ok(out)
    }

    /// Start waves of `services`: the first wave is every service with no
    /// dependencies, and each next wave every service whose dependencies
    /// are all in earlier waves; each wave in alphabetical order. Fails as
    /// `resolve_service_order` does.
    pub fn resolve_service_waves(services: &[&ServiceDefinition]) -> (r: Result<
        Vec<Vec<String>>,
        DependencyError,
    >)
        ensures
            match r {
                Ok(waves) => all_defined(dv(services@)) && layered(dv(services@), wave_views(waves@))
                    && wave_views(waves@).flatten().len() == dv(services@).len(),
                Err(DependencyError::Missing { service, dependency }) => exists|i: int, j: int|
                    first_missing(dv(services@), i, j) && service@ == dv(services@)[i].name@
                        && dependency@ == dv(services@)[i].depends_on@[j]@,
                Err(DependencyError::Cycle { resolved, total }) => all_defined(dv(services@)) && total
                    == dv(services@).len() && resolved < total && exists|ws: Seq<Seq<Seq<char>>>|
                    layered(dv(services@), ws) && stuck(dv(services@), ws.flatten()) && ws.flatten().len()
                        == resolved,
            },
    {
        match find_missing(services) {
            Some((i, j)) => {
                return Err(
                    DependencyError::Missing {
                        service: services[i].name.clone(),
                        dependency: services[i].depends_on[j].clone(),
                    },
                );
            },
            None => {},
        }
        let n = services.len();
        let mut done: Vec<String> = Vec::new();
        let mut waves: Vec<Vec<String>> = Vec::new();
        assert(wave_views(waves@).flatten() =~= views(done@));
        while done.len() < n
            invariant
                n == dv(services@).len(),
                done@.len() <= n,
                all_defined(dv(services@)),
                layered(dv(services@), wave_views(waves@)),
                views(done@) == wave_views(waves@).flatten(),
                views(done@).no_duplicates(),
                forall|k: int| 0 <= k < done@.len() ==> is_service(dv(services@), #[trigger] views(done@)[k]),
            decreases n - done@.len(),
        {
            let ghost d = views(done@);
            let mut set: NameMap<()> = NameMap::new();
            let mut i: usize = 0;
            while i < n
                invariant
                    n == dv(services@).len(),
                    i <= n,
                    d == views(done@),
                    forall|x: Seq<char>|
                        #[trigger] has_key(set.items(), x) <==> (ready(dv(services@), d, x) && exists|k: int|
                            0 <= k < i && dv(services@)[k].name@ == x),
                decreases n - i,
            {
                let name = services[i].name.as_str();
                if !contains_name(&done, name) && deps_met_exec(services, &done, name) {
                    assert(is_service(dv(services@), dv(services@)[i as int].name@));
                    let ghost before = set.items();
                    set.insert(services[i].name.clone(), ());
                    proof {
                        assert forall|x: Seq<char>| #[trigger]
                            has_key(set.items(), x) <==> (ready(dv(services@), d, x) && exists|k: int|
                                0 <= k < i + 1 && dv(services@)[k].name@ == x) by {
                            if x == dv(services@)[i as int].name@ {
                                assert(lookup(set.items(), x) is Some);
                            } else {
                                assert(lookup(set.items(), x) == lookup(before, x));
                                if exists|k: int| 0 <= k < i + 1 && dv(services@)[k].name@ == x {
                                    let k = choose|k: int| 0 <= k < i + 1 && dv(services@)[k].name@ == x;
                                    assert(k < i);
                                }
                            }
                        }
                    }
                } else {
                    proof {
                        assert forall|x: Seq<char>| #[trigger]
                            has_key(set.items(), x) <==> (ready(dv(services@), d, x) && exists|k: int|
                                0 <= k < i + 1 && dv(services@)[k].name@ == x) by {
                            if exists|k: int| 0 <= k < i + 1 && dv(services@)[k].name@ == x {
                                let k = choose|k: int| 0 <= k < i + 1 && dv(services@)[k].name@ == x;
                                if k == i {
                                    assert(!ready(dv(services@), d, x));
                                }
                            }
                        }
                    }
                }
                i += 1;
            }
            let w = set.keys();
            let ghost wv = views(w@);
            proof {
                assert forall|x: Seq<char>| #[trigger] wv.contains(x) <==> ready(dv(services@), d, x) by {
                    if wv.contains(x) {
                        let k = choose|k: int| 0 <= k < wv.len() && wv[k] == x;
                        assert(set.items()[k].0@ == x);
                        assert(has_key(set.items(), x));
                    }
                    if ready(dv(services@), d, x) {
                        let k = choose|k: int|
                            0 <= k < dv(services@).len() && #[trigger] dv(services@)[k].name@ == x;
                        assert(has_key(set.items(), x));
                        let j = choose|j: int| 0 <= j < set.items().len() && #[trigger] set.items()[j].0@ == x;
                        assert(wv[j] == x);
                    }
                }
                assert forall|a: int, b: int| 0 <= a < b < wv.len() implies str_lt(
                    #[trigger] wv[a],
                    #[trigger] wv[b],
                ) by {
                    assert(wv[a] == set.items()[a].0@);
                    assert(wv[b] == set.items()[b].0@);
                }
            }
            if w.len() == 0 {
                proof {
                    assert forall|m: Seq<char>| !#[trigger] ready(dv(services@), d, m) by {
                        if ready(dv(services@), d, m) {
                            assert(wv.contains(m));
                        }
                    }
                    assert(layered(dv(services@), wave_views(waves@)) && stuck(
                        dv(services@),
                        wave_views(waves@).flatten(),
                    ) && wave_views(waves@).flatten().len() == done@.len());
                }
                return Err(DependencyError::Cycle { resolved: done.len(), total: n });
            }
            assert(wave_of(dv(services@), d, wv));
            let m = w.len();
            let mut k: usize = 0;
            while k < m
                invariant
                    m == w@.len(),
                    m > 0,
                    k <= m,
                    wv == views(w@),
                    wave_of(dv(services@), d, wv),
                    d == wave_views(waves@).flatten(),
                    layered(dv(services@), wave_views(waves@)),
                    d.no_duplicates(),
                    forall|j: int| 0 <= j < d.len() ==> is_service(dv(services@), #[trigger] d[j]),
                    views(done@) == d + wv.take(k as int),
                decreases m - k,
            {
                let x = w[k].clone();
                proof {
                    lemma_views_push(done@, x);
                    assert(wv.take(k + 1) =~= wv.take(k as int).push(x@));
                }
                done.push(x);
                k += 1;
            }
            proof {
                assert(wv.take(m as int) =~= wv);
                let ws = wave_views(waves@);
                ws.lemma_flatten_push(wv);
                assert(wave_views(waves@.push(w)) =~= ws.push(wv));
                let ws2 = ws.push(wv);
                assert forall|j: int| 0 <= j < ws2.len() implies #[trigger] wave_of(
                    dv(services@),
                    ws2.take(j).flatten(),
                    ws2[j],
                ) by {
                    if j < ws.len() {
                        assert(ws2.take(j) =~= ws.take(j));
                        assert(wave_of(dv(services@), ws.take(j).flatten(), ws[j]));
                        assert(ws[j].len() > 0);
                        assert(ws2[j] == ws[j]);
                    } else {
                        assert(ws2.take(j) =~= ws);
                        assert(wv.len() == w@.len());
                        assert(ws2[j] == wv);
                    }
                }
                let nd = d + wv;
                assert(nd.no_duplicates()) by {
                    assert forall|a: int, b: int| 0 <= a < nd.len() && 0 <= b < nd.len() && a != b implies nd[a] != nd[b] by {
                        if a < d.len() && b < d.len() {
                        } else if a >= d.len() && b >= d.len() {
                            let a2 = a - d.len();
                            let b2 = b - d.len();
                            if a2 < b2 {
                                assert(str_lt(wv[a2], wv[b2]));
                                lemma_str_lt_irreflexive(wv[a2]);
                            } else {
                                assert(str_lt(wv[b2], wv[a2]));
                                lemma_str_lt_irreflexive(wv[b2]);
                            }
                        } else if a < d.len() {
                            assert(wv.contains(nd[b]));
                            assert(d.contains(nd[a]));
                        } else {
                            assert(wv.contains(nd[a]));
                            assert(d.contains(nd[b]));
                        }
                    }
                }
                assert forall|j: int| 0 <= j < nd.len() implies is_service(dv(services@), #[trigger] nd[j]) by {
                    if j >= d.len() {
                        assert(wv.contains(nd[j]));
                    }
                }
                lemma_distinct_names_bound(dv(services@), nd);
                assert(layered(dv(services@), ws2));
            }
            let ghost ws2 = wave_views(waves@).push(wv);
            waves.push(w);
            assert(wave_views(waves@) =~= ws2);
        }
        Ok(waves)
    }
}

} // verus!

verus! {

/// In a start order every service comes after everything it depends on:
/// each dependency of the service at position `k` stands at some position
/// before `k`.
pub proof fn lemma_start_order_respects_dependencies(
    defs: Seq<ServiceDefinition>,
    order: Seq<Seq<char>>,
    k: int,
    i: int,
    j: int,
)
    requires
        greedy(defs, order),
        0 <= k < order.len(),
        0 <= i < defs.len(),
        defs[i].name@ == order[k],
        0 <= j < defs[i].depends_on@.len(),
    ensures
        exists|m: int| 0 <= m < k && order[m] == defs[i].depends_on@[j]@,
{
    assert(greedy_step(defs, order, k));
    let before = order.take(k);
    assert(before.contains(defs[i].depends_on@[j]@));
    let m = choose|m: int| 0 <= m < before.len() && before[m] == defs[i].depends_on@[j]@;
    assert(order[m] == before[m]);
}

/// A start order names each service once.
pub proof fn lemma_start_order_distinct(defs: Seq<ServiceDefinition>, order: Seq<Seq<char>>)
    requires
        greedy(defs, order),
    ensures
        order.no_duplicates(),
        forall|k: int| 0 <= k < order.len() ==> is_service(defs, #[trigger] order[k]),
{
    assert forall|a: int, b: int| 0 <= a < b < order.len() implies order[a] != order[b] by {
        assert(greedy_step(defs, order, b));
        assert(order.take(b)[a] == order[a]);
    }
    assert forall|k: int| 0 <= k < order.len() implies is_service(defs, #[trigger] order[k]) by {
        assert(greedy_step(defs, order, k));
    }
}

/// The start order is determined by the definitions: two greedy orders of
/// the same length are the same.
pub proof fn lemma_start_order_unique(defs: Seq<ServiceDefinition>, p: Seq<Seq<char>>, q: Seq<Seq<char>>)
    requires
        greedy(defs, p),
        greedy(defs, q),
        p.len() == q.len(),
    ensures
        p == q,
    decreases p.len(),
{
    if p.len() > 0 {
        let n = p.len() - 1;
        let p0 = p.drop_last();
        let q0 = q.drop_last();
        assert forall|k: int| 0 <= k < p0.len() implies #[trigger] greedy_step(defs, p0, k) by {
            assert(greedy_step(defs, p, k));
            assert(p0.take(k) =~= p.take(k));
        }
        assert forall|k: int| 0 <= k < q0.len() implies #[trigger] greedy_step(defs, q0, k) by {
            assert(greedy_step(defs, q, k));
            assert(q0.take(k) =~= q.take(k));
        }
        lemma_start_order_unique(defs, p0, q0);
        assert(greedy_step(defs, p, n));
        assert(greedy_step(defs, q, n));
        assert(p.take(n) =~= p0);
        assert(q.take(n) =~= q0);
        assert(ready(defs, p0, q[n]));
        assert(ready(defs, p0, p[n]));
        assert(str_le(p[n], q[n]));
        assert(str_le(q[n], p[n]));
        lemma_str_lt_asymmetric(p[n], q[n]);
        assert(p[n] == q[n]);
        assert forall|k: int| 0 <= k < p.len() implies p[k] == q[k] by {
            if k < n {
                assert(p[k] == p0[k]);
                assert(q[k] == q0[k]);
            }
        }
        assert(p =~= q);
    }
}

/// The definitions have a start order that names every service.
pub open spec fn has_start_order(defs: Seq<ServiceDefinition>) -> bool {
    all_defined(defs) && exists|p: Seq<Seq<char>>| greedy(defs, p) && p.len() == defs.len()
}

/// A greedy order that gets stuck is the longest one: no greedy order
/// goes past it.
pub proof fn lemma_stuck_order_excludes_full(defs: Seq<ServiceDefinition>, p: Seq<Seq<char>>, q: Seq<Seq<char>>)
    requires
        greedy(defs, p),
        stuck(defs, p),
        greedy(defs, q),
    ensures
        q.len() <= p.len(),
{
    if q.len() > p.len() {
        let n = p.len() as int;
        let q0 = q.take(n);
        assert forall|k: int| 0 <= k < q0.len() implies #[trigger] greedy_step(defs, q0, k) by {
            assert(greedy_step(defs, q, k));
            assert(q0.take(k) =~= q.take(k));
        }
        lemma_start_order_unique(defs, p, q0);
        assert(greedy_step(defs, q, n));
        assert(q.take(n) == p);
        assert(ready(defs, p, q[n]));
    }
}

/// Shutdown stops services in exactly the reverse of their start order.
pub proof fn lemma_shutdown_reverses_start(
    defs: Seq<ServiceDefinition>,
    start: Seq<Seq<char>>,
    shutdown: Seq<Seq<char>>,
)
    requires
        greedy(defs, start),
        start.len() == defs.len(),
        greedy(defs, shutdown.reverse()),
        shutdown.len() == defs.len(),
    ensures
        shutdown == start.reverse(),
{
    lemma_start_order_unique(defs, start, shutdown.reverse());
    assert(shutdown =~= shutdown.reverse().reverse());
}

/// In start waves every service comes after everything it depends on: each
/// dependency of a service in wave `k` is in an earlier wave.
pub proof fn lemma_waves_respect_dependencies(
    defs: Seq<ServiceDefinition>,
    ws: Seq<Seq<Seq<char>>>,
    k: int,
    i: int,
    j: int,
)
    requires
        layered(defs, ws),
        0 <= k < ws.len(),
        ws[k].contains(defs[i].name@),
        0 <= i < defs.len(),
        0 <= j < defs[i].depends_on@.len(),
    ensures
        ws.take(k).flatten().contains(defs[i].depends_on@[j]@),
{
    assert(wave_of(defs, ws.take(k).flatten(), ws[k]));
}

/// Within a wave, no service depends on another of the same wave.
pub proof fn lemma_wave_members_independent(
    defs: Seq<ServiceDefinition>,
    ws: Seq<Seq<Seq<char>>>,
    k: int,
    i: int,
    j: int,
)
    requires
        layered(defs, ws),
        0 <= k < ws.len(),
        ws[k].contains(defs[i].name@),
        0 <= i < defs.len(),
        0 <= j < defs[i].depends_on@.len(),
    ensures
        !ws[k].contains(defs[i].depends_on@[j]@),
{
    let done = ws.take(k).flatten();
    assert(wave_of(defs, done, ws[k]));
    let d = defs[i].depends_on@[j]@;
    if ws[k].contains(d) {
        assert(ready(defs, done, d));
        assert(done.contains(d));
    }
}

/// Dependency `j` of service `i` of `defs` names a service listed before
/// it.
pub open spec fn dep_before(defs: Seq<ServiceDefinition>, i: int, j: int) -> bool {
    exists|k: int| 0 <= k < i && #[trigger] defs[k].name@ == defs[i].depends_on@[j]@
}

/// Services listed so that each depends only on services before it, under
/// distinct names.
pub open spec fn listed_in_order(defs: Seq<ServiceDefinition>) -> bool {
    &&& forall|i: int, j: int| 0 <= i < j < defs.len() ==> #[trigger] defs[i].name@ != #[trigger] defs[j].name@
    &&& forall|i: int, j: int|
        0 <= i < defs.len() && 0 <= j < defs[i].depends_on@.len() ==> #[trigger] dep_before(defs, i, j)
}

/// Once a greedy order of services listed in order is stuck, every one of
/// the first `k` services has started.
proof fn lemma_stuck_holds_prefix(defs: Seq<ServiceDefinition>, p: Seq<Seq<char>>, k: int)
    requires
        listed_in_order(defs),
        stuck(defs, p),
        0 <= k <= defs.len(),
    ensures
        forall|i: int| 0 <= i < k ==> p.contains(#[trigger] defs[i].name@),
    decreases k,
{
    if k > 0 {
        lemma_stuck_holds_prefix(defs, p, k - 1);
        let n = defs[k - 1].name@;
        if !p.contains(n) {
            assert forall|i: int, j: int|
                0 <= i < defs.len() && defs[i].name@ == n && 0 <= j < defs[i].depends_on@.len()
                    implies p.contains(#[trigger] defs[i].depends_on@[j]@) by {
                if i != k - 1 {
                    if i < k - 1 {
                        assert(defs[i].name@ != defs[k - 1].name@);
                    } else {
                        assert(defs[k - 1].name@ != defs[i].name@);
                    }
                }
                assert(dep_before(defs, i, j));
                let m = choose|m: int| 0 <= m < i && #[trigger] defs[m].name@ == defs[i].depends_on@[j]@;
                assert(p.contains(defs[m].name@));
            }
            assert(is_service(defs, n));
            assert(ready(defs, p, n));
        }
    }
}

/// Services listed so that each depends only on services before it, under
/// distinct names, always start in full: every dependency names a service,
/// and a greedy start order can only stop once all of them have started,
/// so no cycle is ever reported.
pub proof fn lemma_listed_order_starts_all(defs: Seq<ServiceDefinition>)
    requires
        listed_in_order(defs),
    ensures
        all_defined(defs),
        forall|p: Seq<Seq<char>>| greedy(defs, p) && stuck(defs, p) ==> p.len() == defs.len(),
        forall|e: DependencyError| !order_error(defs, e),
{
    assert forall|i: int, j: int| !#[trigger] dep_missing(defs, i, j) by {
        if 0 <= i < defs.len() && 0 <= j < defs[i].depends_on@.len() {
            assert(dep_before(defs, i, j));
            let k = choose|k: int| 0 <= k < i && #[trigger] defs[k].name@ == defs[i].depends_on@[j]@;
            assert(is_service(defs, defs[k].name@));
        }
    }
    assert forall|p: Seq<Seq<char>>| greedy(defs, p) && stuck(defs, p) implies p.len() == defs.len() by {
        lemma_stuck_holds_prefix(defs, p, defs.len() as int);
        lemma_start_order_distinct(defs, p);
        lemma_distinct_names_bound(defs, p);
        let names = def_names(defs);
        assert(names.no_duplicates()) by {
            assert forall|a: int, b: int| 0 <= a < names.len() && 0 <= b < names.len() && a != b implies names[a]
                != names[b] by {
                if a < b {
                    assert(defs[a].name@ != defs[b].name@);
                } else {
                    assert(defs[b].name@ != defs[a].name@);
                }
            }
        }
        names.unique_seq_to_set();
        p.lemma_cardinality_of_set();
        assert(names.to_set().subset_of(p.to_set())) by {
            assert forall|x: Seq<char>| names.to_set().contains(x) implies p.to_set().contains(x) by {
                let i = choose|i: int| 0 <= i < names.len() && names[i] == x;
                assert(p.contains(defs[i].name@));
            }
        }
        vstd::set_lib::lemma_len_subset(names.to_set(), p.to_set());
    }
    assert forall|e: DependencyError| !order_error(defs, e) by {
        match e {
            DependencyError::Missing { service, dependency } => {
                if order_error(defs, e) {
                    let (i, j) = choose|i: int, j: int|
                        first_missing(defs, i, j) && service@ == defs[i].name@ && dependency@
                            == defs[i].depends_on@[j]@;
                    assert(dep_missing(defs, i, j));
                }
            },
            DependencyError::Cycle { resolved, total } => {},
        }
    }
}

} // verus!
