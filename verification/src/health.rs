//! Health state of services: the history of recent check results, and the
//! decisions that the health and readiness checks take around the probes
//! that are run outside this library.

use vstd::prelude::*;

use crate::text::{dec, idec, owned, push_i64, push_str, push_u64, starts_with};
use crate::textproc::{chars_of, find_char, first_index, lemma_first_index_bounds, string_of, words};
use crate::types::{HealthCheckResult, ReadyCheck};

verus! {

// ---------------------------------------------------------------------------
// Health state
// ---------------------------------------------------------------------------

/// Health state of a service.
#[derive(Debug, Clone, Copy, PartialEq, Eq, Hash, Structural)]
pub enum HealthState {
    /// No checks have run yet.
    Unknown,
    /// All recent checks passed.
    Healthy,
    /// Some checks failing but under threshold.
    Degraded,
    /// Consecutive failures reached the threshold.
    Unhealthy,
}

impl HealthState {
    pub open spec fn text(self) -> Seq<char> {
        match self {
            HealthState::Unknown => "unknown"@,
            HealthState::Healthy => "healthy"@,
            HealthState::Degraded => "degraded"@,
            HealthState::Unhealthy => "unhealthy"@,
        }
    }

    /// The lower-case name of the state.
    pub fn to_string(&self) -> (s: String)
        ensures
            s@ == self.text(),
    {
        match self {
            HealthState::Unknown => owned("unknown"),
            HealthState::Healthy => owned("healthy"),
            HealthState::Degraded => owned("degraded"),
            HealthState::Unhealthy => owned("unhealthy"),
        }
    }
}

/// The state after a check: healthy when it passed, else unhealthy once
/// the consecutive failures reach `threshold`, else degraded.
pub open spec fn state_after(passed: bool, failures: nat, threshold: u32) -> HealthState {
    if passed {
        HealthState::Healthy
    } else if failures >= threshold {
        HealthState::Unhealthy
    } else {
        HealthState::Degraded
    }
}

// ---------------------------------------------------------------------------
// Health history ring buffer
// ---------------------------------------------------------------------------

/// The last `cap` elements of `s`.
pub open spec fn last_n<T>(s: Seq<T>, cap: nat) -> Seq<T> {
    if s.len() > cap {
        s.skip(s.len() - cap)
    } else {
        s
    }
}

/// The history kept with room for `cap` results, when results `rs` are
/// recorded one after another into a history that held `h`.
pub open spec fn recorded<T>(h: Seq<T>, rs: Seq<T>, cap: nat) -> Seq<T>
    decreases rs.len(),
{
    if rs.len() == 0 {
        h
    } else {
        last_n(recorded(h, rs.drop_last(), cap).push(rs.last()), cap)
    }
}

/// Trimming to the last `cap` before adding one more and trimming again
/// keeps what trimming once would.
proof fn lemma_last_n_push<T>(s: Seq<T>, r: T, cap: nat)
    requires
        cap >= 1,
    ensures
        last_n(last_n(s, cap).push(r), cap) == last_n(s.push(r), cap),
{
    if s.len() > cap {
        assert(last_n(last_n(s, cap).push(r), cap) =~= last_n(s.push(r), cap));
    }
}

/// Recording results one at a time keeps the most recent `cap` of them, in
/// the order they were recorded: a history that held `h` (no more than
/// `cap`) holds, after results `rs`, the last `cap` of `h` followed by `rs`.
/// From an empty history that is the last `cap` of `rs`.
pub proof fn lemma_recorded_window<T>(h: Seq<T>, rs: Seq<T>, cap: nat)
    requires
        cap >= 1,
        h.len() <= cap,
    ensures
        recorded(h, rs, cap) == last_n(h + rs, cap),
    decreases rs.len(),
{
    if rs.len() == 0 {
        assert(h + rs =~= h);
    } else {
        lemma_recorded_window(h, rs.drop_last(), cap);
        lemma_last_n_push(h + rs.drop_last(), rs.last(), cap);
        assert((h + rs.drop_last()).push(rs.last()) =~= h + rs);
    }
}

/// Ring buffer of recent health check results for a service.
#[derive(Debug, Clone)]
pub struct HealthHistory {
    /// Buffer of recent results.
    results: Vec<HealthCheckResult>,
    /// Maximum number of results to keep.
    capacity: usize,
    /// Where the next result goes once the buffer is full.
    write_pos: usize,
    /// Total number of results recorded (may exceed capacity).
    total: usize,
    /// Current consecutive failure count.
    consecutive_failures: u32,
    /// Current health state.
    pub state: HealthState,
}

impl HealthHistory {
    /// The buffer's invariant: it holds `min(total, capacity)` results, and
    /// `write_pos` is where the oldest one stands once it is full.
    pub closed spec fn wf(&self) -> bool {
        &&& self.capacity >= 1
        &&& self.write_pos < self.capacity
        &&& self.results@.len() == (if self.total < self.capacity {
            self.total as nat
        } else {
            self.capacity as nat
        })
        &&& self.results@.len() < self.capacity ==> self.write_pos == self.results@.len()
    }

    /// The kept results, oldest first.
    pub closed spec fn history(&self) -> Seq<HealthCheckResult> {
        if self.results@.len() < self.capacity {
            self.results@
        } else {
            self.results@.skip(self.write_pos as int) + self.results@.take(self.write_pos as int)
        }
    }

    /// The current health state.
    pub closed spec fn health(&self) -> HealthState {
        self.state
    }

    /// How many results are kept at most.
    pub closed spec fn cap(&self) -> nat {
        self.capacity as nat
    }

    /// How many results were ever recorded.
    pub closed spec fn total_spec(&self) -> nat {
        self.total as nat
    }

    /// The current run of failed checks.
    pub closed spec fn failures(&self) -> nat {
        self.consecutive_failures as nat
    }

    /// A history that keeps `capacity` results (at least one).
    pub fn new(capacity: usize) -> (h: Self)
        ensures
            h.wf(),
            h.history() == Seq::<HealthCheckResult>::empty(),
            h.cap() == (if capacity < 1 {
                1
            } else {
                capacity as nat
            }),
            h.total_spec() == 0,
            h.failures() == 0,
            h.health() == HealthState::Unknown,
    {
        let capacity = if capacity < 1 {
            1
        } else {
            capacity
        };
        HealthHistory {
            results: Vec::new(),
            capacity,
            write_pos: 0,
            total: 0,
            consecutive_failures: 0,
            state: HealthState::Unknown,
        }
    }

    /// Records a check result: a pass clears the failure run and makes the
    /// service healthy; a failure lengthens the run, and the service is
    /// unhealthy once the run reaches `failure_threshold`, else degraded.
    /// The oldest result leaves when the buffer is full.
    pub fn record(&mut self, result: HealthCheckResult, failure_threshold: u32)
        requires
            old(self).wf(),
            old(self).total_spec() < usize::MAX,
            !result.passed ==> old(self).failures() < u32::MAX,
        ensures
            final(self).wf(),
            final(self).history() == last_n(old(self).history().push(result), old(self).cap()),
            final(self).cap() == old(self).cap(),
            final(self).total_spec() == old(self).total_spec() + 1,
            final(self).failures() == (if result.passed {
                0
            } else {
                old(self).failures() + 1
            }),
            final(self).health() == state_after(result.passed, final(self).failures(), failure_threshold),
    {
        if result.passed {
            self.consecutive_failures = 0;
            self.state = HealthState::Healthy;
        } else {
            self.consecutive_failures = self.consecutive_failures + 1;
            if self.consecutive_failures >= failure_threshold {
                self.state = HealthState::Unhealthy;
            } else {
                self.state = HealthState::Degraded;
            }
        }
        let ghost old_res = self.results@;
        let ghost old_hist = self.history();
        let ghost wp = self.write_pos as int;
        let cap = self.capacity;
        if self.results.len() < cap {
            self.results.push(result);
            proof {
                assert(old_hist == old_res);
            }
        } else {
            self.results.set(self.write_pos, result);
            proof {
                let c = cap as int;
                let new_res = self.results@;
                let want = old_hist.push(result).skip(1);
                let wp1 = if wp + 1 == c {
                    0
                } else {
                    wp + 1
                };
                let got = new_res.skip(wp1) + new_res.take(wp1);
                assert(want.len() == c);
                assert(got.len() == c);
                assert forall|k: int| 0 <= k < c implies got[k] == want[k] by {
                    assert(want[k] == old_hist.push(result)[k + 1]);
                    if k + 1 < c {
                        assert(old_hist[k + 1] == if wp + k + 1 < c {
                            old_res[wp + k + 1]
                        } else {
                            old_res[wp + k + 1 - c]
                        });
                    }
                    if wp1 == 0 {
                        assert(got[k] == new_res[k]);
                    } else if k < c - wp1 {
                        assert(got[k] == new_res[wp1 + k]);
                    } else {
                        assert(got[k] == new_res[k - (c - wp1)]);
                    }
                }
                assert(got =~= want);
            }
        }
        self.write_pos = if self.write_pos + 1 == cap {
            0
        } else {
            self.write_pos + 1
        };
        self.total = self.total + 1;
        proof {
            if old_res.len() < cap {
                if old_res.len() + 1 < cap {
                    assert(self.history() == old_hist.push(result));
                } else {
                    assert(self.results@.skip(0) =~= self.results@);
                    assert(self.results@.take(0) =~= Seq::<HealthCheckResult>::empty());
                    assert(self.history() =~= old_hist.push(result));
                }
                assert(last_n(old_hist.push(result), cap as nat) == old_hist.push(result));
            } else {
                assert(old_hist.len() == cap);
                assert(old_hist.push(result).skip(old_hist.push(result).len() - cap) =~= old_hist.push(
                    result,
                ).skip(1));
            }
        }
    }

    /// Current consecutive failure count.
    pub fn consecutive_failures(&self) -> (n: u32)
        ensures
            n == self.failures(),
    {
        self.consecutive_failures
    }

    /// Total checks recorded (including those no longer kept).
    pub fn total_checks(&self) -> (n: usize)
        ensures
            n == self.total_spec(),
    {
        self.total
    }

    /// Number of results kept.
    pub fn len(&self) -> (n: usize)
        requires
            self.wf(),
        ensures
            n == self.history().len(),
            n == (if self.total_spec() < self.cap() {
                self.total_spec()
            } else {
                self.cap()
            }),
    {
        self.results.len()
    }

    /// Whether no result is kept.
    pub fn is_empty(&self) -> (b: bool)
        requires
            self.wf(),
        ensures
            b == (self.history().len() == 0),
    {
        self.results.len() == 0
    }

    /// The most recent result.
    pub fn latest(&self) -> (r: Option<&HealthCheckResult>)
        requires
            self.wf(),
        ensures
            match r {
                Some(x) => self.history().len() > 0 && *x == self.history().last(),
                None => self.history().len() == 0,
            },
    {
        let n = self.results.len();
        if n == 0 {
            None
        } else {
            let idx = if self.write_pos == 0 {
                n - 1
            } else {
                self.write_pos - 1
            };
            proof {
                let h = self.history();
                if n >= self.capacity {
                    if self.write_pos == 0 {
                        assert(h[h.len() - 1] == self.results@.skip(0)[n - 1]);
                    } else {
                        assert(h[h.len() - 1] == self.results@.take(self.write_pos as int)[idx as int]);
                    }
                }
            }
            Some(&self.results[idx])
        }
    }

    /// The kept results, oldest first.
    pub fn iter(&self) -> (v: Vec<HealthCheckResult>)
        requires
            self.wf(),
        ensures
            v@ == self.history(),
    {
        let n = self.results.len();
        let start: usize = if n < self.capacity {
            0
        } else {
            self.write_pos
        };
        let mut v: Vec<HealthCheckResult> = Vec::new();
        let mut i = start;
        while i < n
            invariant
                start <= i <= n,
                n == self.results@.len(),
                v@ == self.results@.subrange(start as int, i as int),
            decreases n - i,
        {
            v.push(self.results[i].clone());
            assert(v@ =~= self.results@.subrange(start as int, i + 1));
            i += 1;
        }
        let mut j: usize = 0;
        while j < start
            invariant
                start <= n,
                n == self.results@.len(),
                j <= start,
                v@ == self.results@.subrange(start as int, n as int) + self.results@.subrange(0, j as int),
            decreases start - j,
        {
            v.push(self.results[j].clone());
            assert(v@ =~= self.results@.subrange(start as int, n as int) + self.results@.subrange(0, j + 1));
            j += 1;
        }
        proof {
            if n < self.capacity {
                assert(v@ =~= self.results@);
            } else {
                assert(v@ =~= self.results@.skip(start as int) + self.results@.take(start as int));
            }
        }
        v
    }

    /// Clears the history: no results, no failures, state unknown.
    pub fn reset(&mut self)
        requires
            old(self).wf(),
        ensures
            final(self).wf(),
            final(self).history() == Seq::<HealthCheckResult>::empty(),
            final(self).cap() == old(self).cap(),
            final(self).total_spec() == 0,
            final(self).failures() == 0,
            final(self).health() == HealthState::Unknown,
    {
        self.results.clear();
        self.write_pos = 0;
        self.total = 0;
        self.consecutive_failures = 0;
        self.state = HealthState::Unknown;
    }
}

/// The history keeps at most its capacity of results, and exactly the
/// results recorded while fewer were recorded.
pub proof fn lemma_history_bounded(h: HealthHistory)
    requires
        h.wf(),
    ensures
        h.history().len() <= h.cap(),
        h.history().len() <= h.total_spec(),
        h.total_spec() <= h.cap() ==> h.history().len() == h.total_spec(),
{
}

// ---------------------------------------------------------------------------
// Decisions around the probes
// ---------------------------------------------------------------------------

/// `url` without a leading `http://`.
pub open spec fn url_rest(url: Seq<char>) -> Seq<char> {
    if 7 <= url.len() && url.take(7) == "http://"@ {
        url.skip(7)
    } else {
        url
    }
}

/// The `host:port` part and the path of an HTTP URL: the text after an
/// optional `http://` up to the first `/`, and from there on (`/` when
/// there is no `/`).
pub open spec fn url_parts(url: Seq<char>) -> (Seq<char>, Seq<char>) {
    let u = url_rest(url);
    let i = first_index(u, '/');
    if i < u.len() {
        (u.take(i), u.skip(i))
    } else {
        (u, "/"@)
    }
}

/// Splits an HTTP health URL into its `host:port` and its path.
pub fn split_http_url(url: &str) -> (r: (String, String))
    ensures
        r.0@ == url_parts(url@).0,
        r.1@ == url_parts(url@).1,
{
    let chars = chars_of(url);
    let n = chars.len();
    let start: usize = if starts_with(url, "http://") {
        7
    } else {
        0
    };
    proof {
        reveal_strlit("http://");
        assert(chars@.skip(start as int) == url_rest(url@));
    }
    let i = find_char(&chars, start, '/');
    proof {
        lemma_first_index_bounds(chars@.skip(start as int), '/');
    }
    if i < n {
        let a = string_of(&chars, start, i);
        let b = string_of(&chars, i, n);
        proof {
            let u = url_rest(url@);
            assert(a@ =~= u.take(i - start));
            assert(b@ =~= u.skip(i - start));
        }
        (a, b)
    } else {
        let a = string_of(&chars, start, n);
        proof {
            assert(a@ =~= url_rest(url@));
        }
        (a, owned("/"))
    }
}

/// The second field of an HTTP status line split at spaces into at most
/// three parts (`HTTP/1.1 200 OK` gives `200`), if it has one.
pub open spec fn status_field(line: Seq<char>) -> Option<Seq<char>> {
    let i = first_index(line, ' ');
    if i < line.len() {
        let rest = line.skip(i + 1);
        Some(rest.take(first_index(rest, ' ')))
    } else {
        None
    }
}

/// The status code field of an HTTP status line.
pub fn status_code_field(status_line: &str) -> (r: Option<String>)
    ensures
        match status_field(status_line@) {
            Some(f) => r is Some && r->Some_0@ == f,
            None => r is None,
        },
{
    let chars = chars_of(status_line);
    let n = chars.len();
    let i = find_char(&chars, 0, ' ');
    assert(chars@.skip(0) =~= chars@);
    if i >= n {
        return None;
    }
    let j = find_char(&chars, i + 1, ' ');
    proof {
        lemma_first_index_bounds(chars@.skip(i + 1), ' ');
    }
    let f = string_of(&chars, i + 1, j);
    assert(f@ =~= status_line@.skip(i + 1).take(j - (i + 1)));
    Some(f)
}

/// The verdict on an HTTP status code: healthy for 2xx, with the message
/// `HTTP <code>` either way.
pub fn http_code_verdict(code: u16) -> (r: (bool, String))
    ensures
        r.0 == (200 <= code < 300),
        r.1@ == "HTTP "@ + dec(code as nat),
{
    let mut s = owned("HTTP ");
    push_u64(&mut s, code as u64);
    (200 <= code && code < 300, s)
}

/// The verdict on a check command's exit code: healthy on 0, else
/// `command exited with code <code>`.
pub fn command_exit_verdict(code: i32) -> (r: (bool, Option<String>))
    ensures
        r.0 == (code == 0),
        code == 0 ==> r.1 is None,
        code != 0 ==> r.1 is Some && r.1->Some_0@ == "command exited with code "@ + idec(code as int),
{
    if code == 0 {
        (true, None)
    } else {
        let mut s = owned("command exited with code ");
        push_i64(&mut s, code as i64);
        (false, Some(s))
    }
}

/// The words of a check command: the program and its arguments.
pub fn command_words(cmd: &str) -> (v: Vec<String>)
    ensures
        v@.map_values(|w: String| w@) == words(cmd@),
{
    let mut v: Vec<String> = Vec::new();
    let mut k: usize = 0;
    let len = cmd.unicode_len();
    loop
        invariant
            len == cmd@.len(),
            v@.len() == k,
            k <= words(cmd@).len(),
            forall|x: int| 0 <= x < k ==> v@[x]@ == words(cmd@)[x],
        decreases words(cmd@).len() - k,
    {
        match crate::textproc::nth_word(cmd, k) {
            Some(w) => {
                v.push(w);
                if k == usize::MAX {
                    proof {
                        assert(false) by {
                            assert(words(cmd@).len() > k);
                            lemma_words_len(cmd@);
                        }
                    }
                }
                k += 1;
            },
            None => {
                assert(v@.map_values(|w: String| w@) =~= words(cmd@));
                return v;
            },
        }
    }
}

/// There are no more words than characters.
proof fn lemma_words_len(s: Seq<char>)
    ensures
        words(s).len() <= s.len(),
    decreases s.len(),
{
    crate::textproc::lemma_trim_start_len(s);
    let t = crate::textproc::trim_start(s);
    if t.len() > 0 {
        crate::textproc::lemma_first_ws_bounds(t);
        let e = crate::textproc::first_ws(t);
        assert(e >= 1) by {
            assert(!crate::textproc::is_ws(t[0])) by {
                lemma_trim_start_first(s);
            }
        }
        lemma_words_len(t.skip(e));
    }
}

/// A trimmed start does not begin with white space.
proof fn lemma_trim_start_first(s: Seq<char>)
    ensures
        crate::textproc::trim_start(s).len() > 0 ==> !crate::textproc::is_ws(crate::textproc::trim_start(s)[0]),
    decreases s.len(),
{
    if s.len() > 0 && crate::textproc::is_ws(s[0]) {
        lemma_trim_start_first(s.drop_first());
    }
}

/// The pid to probe for a process-alive check, or why there is none:
/// `no PID tracked`, or `PID <pid> exceeds i32::MAX, cannot check`.
pub fn alive_probe_pid(pid: Option<u32>) -> (r: Result<i32, String>)
    ensures
        match pid {
            None => r is Err && r->Err_0@ == "no PID tracked"@,
            Some(p) => if p <= i32::MAX {
                r == Ok::<i32, String>(p as i32)
            } else {
                r is Err && r->Err_0@ == "PID "@ + dec(p as nat) + " exceeds i32::MAX, cannot check"@
            },
        },
{
    match pid {
        None => Err(owned("no PID tracked")),
        Some(p) => {
            if p <= 2147483647u32 {
                Ok(p as i32)
            } else {
                let mut s = owned("PID ");
                push_u64(&mut s, p as u64);
                push_str(&mut s, " exceeds i32::MAX, cannot check");
                Err(s)
            }
        },
    }
}

/// The address a TCP connect check dials: `host:port`.
pub fn tcp_address(host: &str, port: u16) -> (s: String)
    ensures
        s@ == host@ + ":"@ + dec(port as nat),
{
    let mut s = owned(host);
    push_str(&mut s, ":");
    push_u64(&mut s, port as u64);
    s
}

/// What a readiness check does next.
#[derive(Debug, Clone, Copy, PartialEq, Eq, Structural)]
pub enum ReadyStep {
    /// Probe once, with this much of the timeout left (milliseconds).
    Probe(u64),
    /// The overall timeout is used up.
    TimedOut,
}

/// The next step of a readiness check after `elapsed_ms` of its timeout:
/// probe with what is left of it, or stop when nothing is left.
pub fn ready_step(check: &ReadyCheck, elapsed_ms: u64) -> (r: ReadyStep)
    ensures
        elapsed_ms >= check.timeout_ms ==> r == ReadyStep::TimedOut,
        elapsed_ms < check.timeout_ms ==> r == ReadyStep::Probe((check.timeout_ms - elapsed_ms) as u64),
{
    if elapsed_ms >= check.timeout_ms {
        ReadyStep::TimedOut
    } else {
        ReadyStep::Probe(check.timeout_ms - elapsed_ms)
    }
}

/// Whether a failed attempt (counted from 0) is followed by another one
/// after the retry delay.
pub fn ready_retries_left(check: &ReadyCheck, attempt: u32) -> (b: bool)
    ensures
        b == (attempt < check.retries),
{
    attempt < check.retries
}

/// The message of a readiness check that failed every attempt.
pub fn ready_failure_message(check: &ReadyCheck) -> (s: String)
    ensures
        s@ == "ready check failed after "@ + dec(check.retries as nat) + " retries"@,
{
    let mut s = owned("ready check failed after ");
    push_u64(&mut s, check.retries as u64);
    push_str(&mut s, " retries");
    s
}

} // verus!

verus! {

/// A run of histories `hs`, each one the one before after `record` of the
/// matching result of `rs`, starting from an empty history that keeps
/// `cap` results: it ends holding the last `min(n, cap)` of the `n`
/// results, oldest first, the newest being the last one recorded, and
/// having counted all `n` checks.
pub proof fn lemma_history_after_records(hs: Seq<HealthHistory>, rs: Seq<HealthCheckResult>)
    requires
        hs.len() == rs.len() + 1,
        hs[0].history() == Seq::<HealthCheckResult>::empty(),
        hs[0].total_spec() == 0,
        hs[0].cap() >= 1,
        forall|i: int|
            0 <= i < rs.len() ==> #[trigger] hs[i + 1].history() == last_n(hs[i].history().push(rs[i]), hs[i].cap())
                && hs[i + 1].cap() == hs[i].cap() && hs[i + 1].total_spec() == hs[i].total_spec() + 1,
    ensures
        hs.last().history() == last_n(rs, hs[0].cap()),
        hs.last().history().len() == (if rs.len() < hs[0].cap() {
            rs.len()
        } else {
            hs[0].cap()
        }),
        rs.len() > 0 ==> hs.last().history().last() == rs.last(),
        hs.last().total_spec() == rs.len(),
        hs.last().cap() == hs[0].cap(),
{
    let cap = hs[0].cap();
    assert forall|k: int| 0 <= k <= rs.len() implies #[trigger] hs[k].history() == recorded(
        Seq::<HealthCheckResult>::empty(),
        rs.take(k),
        cap,
    ) && hs[k].cap() == cap && hs[k].total_spec() == k by {
        lemma_history_prefix(hs, rs, k);
    }
    lemma_recorded_window(Seq::<HealthCheckResult>::empty(), rs, cap);
    assert(rs.take(rs.len() as int) =~= rs);
    assert(Seq::<HealthCheckResult>::empty() + rs =~= rs);
    assert(hs.last() == hs[rs.len() as int]);
    let w = last_n(rs, cap);
    if rs.len() > 0 && rs.len() > cap {
        assert(w.last() == rs[rs.len() - 1]);
    }
}

proof fn lemma_history_prefix(hs: Seq<HealthHistory>, rs: Seq<HealthCheckResult>, k: int)
    requires
        hs.len() == rs.len() + 1,
        0 <= k <= rs.len(),
        hs[0].history() == Seq::<HealthCheckResult>::empty(),
        hs[0].total_spec() == 0,
        forall|i: int|
            0 <= i < rs.len() ==> #[trigger] hs[i + 1].history() == last_n(hs[i].history().push(rs[i]), hs[i].cap())
                && hs[i + 1].cap() == hs[i].cap() && hs[i + 1].total_spec() == hs[i].total_spec() + 1,
    ensures
        hs[k].history() == recorded(Seq::<HealthCheckResult>::empty(), rs.take(k), hs[0].cap()),
        hs[k].cap() == hs[0].cap(),
        hs[k].total_spec() == k,
    decreases k,
{
    if k > 0 {
        lemma_history_prefix(hs, rs, k - 1);
        assert(hs[(k - 1) + 1].history() == last_n(hs[k - 1].history().push(rs[k - 1]), hs[k - 1].cap()));
        assert(rs.take(k).drop_last() =~= rs.take(k - 1));
        assert(rs.take(k).last() == rs[k - 1]);
    } else {
        assert(rs.take(0) =~= Seq::<HealthCheckResult>::empty());
    }
}

} // verus!
