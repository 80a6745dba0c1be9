//! The table of service processes that the init system tracks.
//!
//! A process is recorded here by its service name, PID and start time; the
//! operating-system handle that belongs to it is held by the caller that
//! spawned it.

use vstd::prelude::*;

use crate::clock::{elapsed_ms, elapsed_spec, now_ms};
use crate::text::{dec, idec, owned, push_i64, push_str, push_u64};
use crate::types::{command_line, LogConfig, SafeCommand};
use crate::namemap::{has_key, key_views, lookup, sorted_keys, NameMap};

verus! {

/// A running service process with its metadata.
#[derive(Debug)]
pub struct SpawnedProcess {
    /// Service name this process belongs to.
    pub service_name: String,
    /// PID of the tracked process.
    pub pid: u32,
    /// When the process was spawned or adopted (ms since the epoch).
    pub started_at: i64,
    /// Path to the stdout log file.
    pub stdout_log: Option<String>,
    /// Path to the stderr log file.
    pub stderr_log: Option<String>,
    /// Whether this is a forked process (parent exited, tracking child).
    pub forked: bool,
}

impl SpawnedProcess {
    /// A record for a forked daemon of which only the PID is known, adopted
    /// at time `now`.
    pub fn adopted_at(service_name: &str, pid: u32, now: i64) -> (p: Self)
        ensures
            p.service_name@ == service_name@,
            p.pid == pid,
            p.started_at == now,
            p.stdout_log is None,
            p.stderr_log is None,
            p.forked,
    {
        SpawnedProcess {
            service_name: service_name.to_string(),
            pid,
            started_at: now,
            stdout_log: None,
            stderr_log: None,
            forked: true,
        }
    }

    /// A record for a forked daemon of which only the PID is known (read
    /// from a PID file or sd_notify `MAINPID`), adopted now.
    pub fn from_forked_pid(service_name: &str, pid: u32) -> (p: Self)
        ensures
            p.service_name@ == service_name@,
            p.pid == pid,
            p.stdout_log is None,
            p.stderr_log is None,
            p.forked,
    {
        Self::adopted_at(service_name, pid, now_ms())
    }

    /// How long the process has been running at time `now`, in ms.
    pub fn uptime_at(&self, now: i64) -> (d: u64)
        ensures
            d == elapsed_spec(self.started_at, now),
    {
        elapsed_ms(self.started_at, now)
    }

    /// How long the process has been running, in ms.
    pub fn uptime(&self) -> (d: u64)
        ensures
            exists|now: i64| d == elapsed_spec(self.started_at, now),
    {
        let now = now_ms();
        self.uptime_at(now)
    }
}

/// Tracks the running service processes, one per service name.
#[derive(Debug)]
pub struct ProcessTable {
    processes: NameMap<SpawnedProcess>,
}

impl ProcessTable {
    /// The tracked processes, in service-name order.
    pub closed spec fn entries(&self) -> Seq<(String, SpawnedProcess)> {
        self.processes.items()
    }

    /// The process tracked for service `name`.
    pub open spec fn get_spec(&self, name: Seq<char>) -> Option<SpawnedProcess> {
        lookup(self.entries(), name)
    }

    /// An empty table.
    pub fn new() -> (t: Self)
        ensures
            t.entries().len() == 0,
    {
        ProcessTable { processes: NameMap::new() }
    }

    /// Tracks `process` under its service name. A process already tracked
    /// under that name is taken out of the table and handed back, so that
    /// the caller can kill it.
    pub fn insert(&mut self, process: SpawnedProcess) -> (old_entry: Option<SpawnedProcess>)
        ensures
            sorted_keys(final(self).entries()),
            old_entry == old(self).get_spec(process.service_name@),
            final(self).get_spec(process.service_name@) == Some(process),
            forall|q: Seq<char>|
                q != process.service_name@ ==> final(self).get_spec(q) == old(self).get_spec(q),
    {
        let name = process.service_name.clone();
        self.processes.insert(name, process)
    }

    /// Stops tracking service `name`, returning its process.
    pub fn remove(&mut self, service_name: &str) -> (r: Option<SpawnedProcess>)
        ensures
            r == old(self).get_spec(service_name@),
            final(self).get_spec(service_name@) is None,
            forall|q: Seq<char>| q != service_name@ ==> final(self).get_spec(q) == old(self).get_spec(q),
    {
        self.processes.remove(service_name)
    }

    /// The process tracked for service `name`.
    pub fn get(&self, service_name: &str) -> (r: Option<&SpawnedProcess>)
        ensures
            match r {
                Some(p) => self.get_spec(service_name@) == Some(*p),
                None => self.get_spec(service_name@) is None,
            },
    {
        self.processes.get(service_name)
    }

    /// Whether service `name` has a tracked process.
    pub fn contains(&self, service_name: &str) -> (b: bool)
        ensures
            b == has_key(self.entries(), service_name@),
    {
        self.processes.contains_key(service_name)
    }

    /// The number of tracked processes.
    pub fn len(&self) -> (n: usize)
        ensures
            n == self.entries().len(),
    {
        self.processes.len()
    }

    /// Whether no process is tracked.
    pub fn is_empty(&self) -> (b: bool)
        ensures
            b == (self.entries().len() == 0),
    {
        self.processes.is_empty()
    }

    /// The PID of the process tracked for service `name`.
    pub fn pid_of(&self, service_name: &str) -> (r: Option<u32>)
        ensures
            match self.get_spec(service_name@) {
                Some(p) => r == Some(p.pid),
                None => r is None,
            },
    {
        match self.processes.get(service_name) {
            Some(p) => Some(p.pid),
            None => None,
        }
    }

    /// The `i`-th tracked process in service-name order.
    pub fn entry(&self, i: usize) -> (r: (&String, &SpawnedProcess))
        requires
            i < self.entries().len(),
        ensures
            *r.0 == self.entries()[i as int].0,
            *r.1 == self.entries()[i as int].1,
    {
        self.processes.entry(i)
    }

    /// The names and PIDs of all tracked processes, in name order.
    pub fn iter(&self) -> (v: Vec<(String, u32)>)
        ensures
            v@.len() == self.entries().len(),
            forall|i: int|
                0 <= i < v@.len() ==> #[trigger] v@[i].0@ == self.entries()[i].0@ && v@[i].1
                    == self.entries()[i].1.pid,
    {
        let n = self.processes.len();
        let mut v: Vec<(String, u32)> = Vec::new();
        let mut i: usize = 0;
        while i < n
            invariant
                n == self.entries().len(),
                i <= n,
                v@.len() == i,
                forall|j: int|
                    0 <= j < i ==> #[trigger] v@[j].0@ == self.entries()[j].0@ && v@[j].1
                        == self.entries()[j].1.pid,
            decreases n - i,
        {
            let (k, p) = self.processes.entry(i);
            v.push((k.clone(), p.pid));
            i += 1;
        }
        v
    }

    /// Stops tracking every process.
    pub fn clear(&mut self)
        ensures
            final(self).entries().len() == 0,
    {
        self.processes.clear();
    }
}

/// The outcome of a command sequence after command `index` (counted from
/// 0) exited with `code`: on to the next command when it succeeded, else
/// the sequence stops with `command <n> of <total> failed with exit code
/// <code>: <command line>`.
pub fn sequence_step(cmds: &[SafeCommand], index: usize, code: i32) -> (r: Result<(), String>)
    requires
        index < cmds@.len(),
    ensures
        code == 0 ==> r is Ok,
        code != 0 ==> r is Err && r->Err_0@ == "command "@ + dec((index + 1) as nat) + " of "@ + dec(cmds@.len())
            + " failed with exit code "@ + idec(code as int) + ": "@ + command_line(
            cmds@[index as int].binary@,
            cmds@[index as int].arg_views(),
        ),
{
    if code == 0 {
        return Ok(());
    }
    let n = cmds.len();
    let mut s = owned("command ");
    push_u64(&mut s, (index + 1) as u64);
    push_str(&mut s, " of ");
    push_u64(&mut s, n as u64);
    push_str(&mut s, " failed with exit code ");
    push_i64(&mut s, code as i64);
    push_str(&mut s, ": ");
    let line = cmds[index].display();
    push_str(&mut s, line.as_str());
    Err(s)
}

/// `<path>.<i>`: the `i`-th rotated copy of a log file.
pub open spec fn rotated_name(path: Seq<char>, i: nat) -> Seq<char> {
    path + "."@ + dec(i)
}

/// The renames of a log rotation that keeps `max_files` copies: each copy
/// `.i` moves to `.i+1`, from `.max_files-1` down to `.1`, then the log
/// itself moves to `.1`.
pub open spec fn rotation_renames(path: Seq<char>, max_files: nat) -> Seq<(Seq<char>, Seq<char>)> {
    let shifts = if max_files >= 1 {
        (max_files - 1) as nat
    } else {
        0
    };
    Seq::new(
        shifts,
        |k: int| (rotated_name(path, (shifts - k) as nat), rotated_name(path, (shifts - k + 1) as nat)),
    ).push((path, rotated_name(path, 1)))
}

/// The file operations of one log rotation: first remove the oldest copy,
/// then the renames in order (a copy that does not exist is skipped).
#[derive(Debug)]
pub struct LogRotation {
    /// The copy beyond the limit, removed first.
    pub remove: String,
    /// `(from, to)` renames, in the order they are made.
    pub renames: Vec<(String, String)>,
}

/// The rotation of a log file of `size` bytes at `path`: none while it is
/// under `max_size_bytes`; else remove `<path>.<max_files>`, shift the
/// numbered copies up by one, and move the log to `<path>.1`.
pub fn log_rotation_plan(path: &str, size: u64, config: &LogConfig) -> (r: Option<LogRotation>)
    ensures
        size < config.max_size_bytes ==> r is None,
        size >= config.max_size_bytes ==> r is Some && r->Some_0.remove@ == rotated_name(
            path@,
            config.max_files as nat,
        ) && r->Some_0.renames@.map_values(|p: (String, String)| (p.0@, p.1@)) == rotation_renames(
            path@,
            config.max_files as nat,
        ),
{
    if size < config.max_size_bytes {
        return None;
    }
    let mut remove = owned(path);
    push_str(&mut remove, ".");
    push_u64(&mut remove, config.max_files as u64);
    let mut renames: Vec<(String, String)> = Vec::new();
    let shifts: u32 = if config.max_files >= 1 {
        config.max_files - 1
    } else {
        0
    };
    let ghost want = rotation_renames(path@, config.max_files as nat);
    let mut i: u32 = shifts;
    while i >= 1
        invariant
            i <= shifts,
            shifts == (if config.max_files >= 1 {
                (config.max_files - 1) as nat
            } else {
                0nat
            }),
            want == rotation_renames(path@, config.max_files as nat),
            renames@.len() == shifts - i,
            forall|k: int| 0 <= k < shifts - i ==> (#[trigger] renames@[k]).0@ == want[k].0 && renames@[k].1@
                == want[k].1,
        decreases i,
    {
        let mut from = owned(path);
        push_str(&mut from, ".");
        push_u64(&mut from, i as u64);
        let mut to = owned(path);
        push_str(&mut to, ".");
        push_u64(&mut to, (i as u64) + 1);
        let ghost k = shifts - i;
        proof {
            assert(want[k].0 == rotated_name(path@, i as nat));
            assert(want[k].1 == rotated_name(path@, (i + 1) as nat));
        }
        renames.push((from, to));
        i = i - 1;
    }
    let mut last = owned(path);
    push_str(&mut last, ".1");
    proof {
        reveal_strlit(".1");
        reveal_strlit(".");
        assert(dec(1) =~= seq!['1']);
        assert(last@ =~= rotated_name(path@, 1));
    }
    renames.push((owned(path), last));
    assert(renames@.map_values(|p: (String, String)| (p.0@, p.1@)) =~= want);
    Some(LogRotation { remove, renames })
}

} // verus!
