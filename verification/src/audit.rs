//! Audit trail of service lifecycle events, kept in a hash-linked libro
//! audit chain.
//!
//! Each recorded event becomes one chain entry with a severity, the source
//! `argonaut`, the event's short description as its action, and JSON
//! details that the caller serialises.

use vstd::prelude::*;

use chrono::DateTime;

use crate::types::{ExitStatus, ServiceEvent, ServiceEventType};

verus! {

#[verifier::external_type_specification]
#[verifier::external_body]
pub struct ExAuditChain(libro::AuditChain);

#[verifier::external_type_specification]
#[verifier::external_body]
pub struct ExAuditEntry(libro::AuditEntry);

#[verifier::external_type_specification]
#[verifier::external_body]
pub struct ExJsonValue(serde_json::Value);

#[verifier::external_type_specification]
#[verifier::external_body]
pub struct ExLibroSeverity(libro::EventSeverity);

/// Severity of an audit entry, from least to most severe (the levels of
/// libro's `EventSeverity`).
#[derive(Debug, Clone, Copy, PartialEq, Eq, Hash, Structural)]
pub enum AuditSeverity {
    Debug,
    Info,
    Warning,
    Error,
    Critical,
    Security,
}

impl AuditSeverity {
    /// The position of the level, from 0 for `Debug` up.
    pub open spec fn rank(self) -> u8 {
        match self {
            AuditSeverity::Debug => 0,
            AuditSeverity::Info => 1,
            AuditSeverity::Warning => 2,
            AuditSeverity::Error => 3,
            AuditSeverity::Critical => 4,
            AuditSeverity::Security => 5,
        }
    }
}

/// An audit entry as its severity rank, source, action, agent id, and the
/// instant of its timestamp (see `instant`).
pub type EntryView = (u8, Seq<char>, Seq<char>, Option<Seq<char>>, int);

/// A number that orders instants as chrono orders its `DateTime`s: whole
/// seconds since the epoch times two billion, plus the nanoseconds into
/// the second (below two billion, leap seconds included).
pub open spec fn instant(secs: int, nanos: int) -> int {
    secs * 2_000_000_000 + nanos
}

/// The instant of `ms` milliseconds since the epoch, as chrono's
/// `DateTime::from_timestamp_millis` makes it.
pub open spec fn millis_instant(ms: i64) -> int {
    instant(ms as int / 1000, (ms as int % 1000) * 1_000_000)
}

/// Milliseconds since the epoch that chrono can turn into a `DateTime`
/// (within about 250,000 years of the epoch), when given.
pub open spec fn time_in_range(t: Option<i64>) -> bool {
    t matches Some(ms) ==> -8_000_000_000_000_000 <= ms <= 8_000_000_000_000_000
}

/// The entries of a chain, each as its severity rank, source, action,
/// agent id and timestamp instant.
pub uninterp spec fn chain_entries(chain: libro::AuditChain) -> Seq<EntryView>;

/// The capacity a chain was made with, past which it rotates.
pub uninterp spec fn chain_limit(chain: libro::AuditChain) -> Option<usize>;

/// The severity rank, source, action, agent id and timestamp instant of an
/// entry.
pub uninterp spec fn entry_fields(entry: libro::AuditEntry) -> EntryView;

/// The position of a libro severity level, from 0 for `Debug` up.
pub uninterp spec fn level_rank(level: libro::EventSeverity) -> u8;

/// The libro `EventSeverity` of the same name as `severity`.
#[verifier::external_body]
fn libro_level(severity: AuditSeverity) -> (l: libro::EventSeverity)
    ensures
        level_rank(l) == severity.rank(),
{
    match severity {
        AuditSeverity::Debug => libro::EventSeverity::Debug,
        AuditSeverity::Info => libro::EventSeverity::Info,
        AuditSeverity::Warning => libro::EventSeverity::Warning,
        AuditSeverity::Error => libro::EventSeverity::Error,
        AuditSeverity::Critical => libro::EventSeverity::Critical,
        AuditSeverity::Security => libro::EventSeverity::Security,
    }
}

/// Every entry of a chain holds the hash of its own contents and the hash
/// of the entry before it (the first, that of the chain it continues, or
/// nothing).
pub uninterp spec fn chain_intact(chain: libro::AuditChain) -> bool;

/// `AuditChain::new` of libro: a chain with no entries and no capacity
/// limit (it is made by `Default`, which leaves both empty); with no
/// entries it is intact.
#[verifier::external_body]
fn chain_new() -> (c: libro::AuditChain)
    ensures
        chain_entries(c) == Seq::<EntryView>::empty(),
        chain_limit(c) is None,
        chain_intact(c),
{
    libro::AuditChain::new()
}

/// `AuditChain::append` of libro: on a chain without a capacity limit it
/// only pushes one entry with the given severity, source and action and no
/// agent id (it rotates first only when a limit is reached). The new entry
/// is made by `AuditEntry::new`, which stores the hash of its contents, and
/// links to the hash of the last entry, so an intact chain stays intact.
/// What the entry's id, timestamp and hashes hold is left unsaid.
#[verifier::external_body]
fn chain_append(
    chain: &mut libro::AuditChain,
    level: libro::EventSeverity,
    source: &str,
    action: &str,
    details: serde_json::Value,
)
    ensures
        chain_limit(*final(chain)) == chain_limit(*old(chain)),
        chain_limit(*old(chain)) is None ==> {
            let e = chain_entries(*final(chain));
            &&& e.len() == chain_entries(*old(chain)).len() + 1
            &&& e.drop_last() == chain_entries(*old(chain))
            &&& e.last().0 == level_rank(level)
            &&& e.last().1 == source@
            &&& e.last().2 == action@
            &&& e.last().3 is None
        },
        chain_limit(*old(chain)) is None && chain_intact(*old(chain)) ==> chain_intact(*final(chain)),
{
    chain.append(level, source, action, details);
}

/// `AuditChain::len` of libro: the number of entries.
#[verifier::external_body]
fn chain_len(chain: &libro::AuditChain) -> (n: usize)
    ensures
        n == chain_entries(*chain).len(),
{
    chain.len()
}

/// `AuditChain::verify` of libro, its error turned into its message: it
/// recomputes each entry's hash and checks the links, so an intact chain
/// passes. What the error says of a broken chain is left unsaid.
#[verifier::external_body]
fn chain_verify(chain: &libro::AuditChain) -> (r: Result<(), String>)
    ensures
        chain_intact(*chain) ==> r is Ok,
{
    chain.verify().map_err(|e| e.to_string())
}

/// `AuditChain::by_source` of libro: the entries whose source is `source`,
/// in chain order.
#[verifier::external_body]
fn chain_by_source<'a>(chain: &'a libro::AuditChain, source: &str) -> (r: Vec<&'a libro::AuditEntry>)
    ensures
        r@.map_values(|e: &libro::AuditEntry| entry_fields(*e)) == chain_entries(*chain).filter(
            |t: EntryView| t.1 == source@,
        ),
{
    chain.by_source(source)
}

/// A query over the entries of an audit log: each condition that is set
/// must hold.
#[derive(Debug, Clone)]
pub struct AuditQuery {
    /// The source must be this.
    pub source: Option<String>,
    /// The severity must be exactly this.
    pub severity: Option<AuditSeverity>,
    /// The severity must be at least this.
    pub min_severity: Option<AuditSeverity>,
    /// The action must be this.
    pub action: Option<String>,
    /// The agent id must be this.
    pub agent_id: Option<String>,
    /// The entry must be later than this many milliseconds since the epoch.
    pub after_ms: Option<i64>,
    /// The entry must be earlier than this many milliseconds since the epoch.
    pub before_ms: Option<i64>,
}

/// Whether an entry meets a query.
pub open spec fn query_matches(q: AuditQuery, t: EntryView) -> bool {
    &&& q.source is Some ==> t.1 == q.source->Some_0@
    &&& q.severity is Some ==> t.0 == q.severity->Some_0.rank()
    &&& q.min_severity is Some ==> t.0 >= q.min_severity->Some_0.rank()
    &&& q.action is Some ==> t.2 == q.action->Some_0@
    &&& q.agent_id is Some ==> t.3 == Some(q.agent_id->Some_0@)
    &&& q.after_ms is Some ==> t.4 > millis_instant(q.after_ms->Some_0)
    &&& q.before_ms is Some ==> t.4 < millis_instant(q.before_ms->Some_0)
}

/// Whether an entry meets the conditions of a libro `QueryFilter` made from
/// `q`, with `level` and `min_level` as its severities.
pub open spec fn filter_matches(
    q: AuditQuery,
    level: Option<libro::EventSeverity>,
    min_level: Option<libro::EventSeverity>,
    t: EntryView,
) -> bool {
    &&& q.source is Some ==> t.1 == q.source->Some_0@
    &&& level is Some ==> t.0 == level_rank(level->Some_0)
    &&& min_level is Some ==> t.0 >= level_rank(min_level->Some_0)
    &&& q.action is Some ==> t.2 == q.action->Some_0@
    &&& q.agent_id is Some ==> t.3 == Some(q.agent_id->Some_0@)
    &&& q.after_ms is Some ==> t.4 > millis_instant(q.after_ms->Some_0)
    &&& q.before_ms is Some ==> t.4 < millis_instant(q.before_ms->Some_0)
}

/// `AuditChain::query` of libro with the `QueryFilter` that sets the
/// conditions of `q`, the times turned into `DateTime`s by
/// `from_timestamp_millis`: the entries that meet them all, in chain order.
#[verifier::external_body]
fn chain_query<'a>(
    chain: &'a libro::AuditChain,
    q: &AuditQuery,
    level: Option<libro::EventSeverity>,
    min_level: Option<libro::EventSeverity>,
) -> (r: Vec<&'a libro::AuditEntry>)
    requires
        time_in_range(q.after_ms),
        time_in_range(q.before_ms),
    ensures
        r@.map_values(|e: &libro::AuditEntry| entry_fields(*e)) == chain_entries(*chain).filter(
            |t: EntryView| filter_matches(*q, level, min_level, t),
        ),
{
    let mut f = libro::QueryFilter::new();
    if let Some(s) = &q.source { f = f.source(s); }
    if let Some(l) = level { f = f.severity(l); }
    if let Some(l) = min_level { f = f.min_severity(l); }
    if let Some(a) = &q.action { f = f.action(a); }
    if let Some(a) = &q.agent_id { f = f.agent_id(a); }
    if let Some(t) = q.after_ms { f = f.after(DateTime::from_timestamp_millis(t).unwrap()); }
    if let Some(t) = q.before_ms { f = f.before(DateTime::from_timestamp_millis(t).unwrap()); }
    chain.query(&f)
}

impl AuditQuery {
    /// A query with no conditions.
    pub fn new() -> (q: Self)
        ensures
            q.source is None,
            q.severity is None,
            q.min_severity is None,
            q.action is None,
            q.agent_id is None,
            q.after_ms is None,
            q.before_ms is None,
    {
        AuditQuery {
            source: None,
            severity: None,
            min_severity: None,
            action: None,
            agent_id: None,
            after_ms: None,
            before_ms: None,
        }
    }
}

/// The severity of a service event: information for progress and clean
/// exits, a warning for stops, restarts, waits and failed checks, an error
/// for timeouts, crashes and unclean exits.
pub open spec fn severity_of(event_type: ServiceEventType) -> AuditSeverity {
    match event_type {
        ServiceEventType::Starting => AuditSeverity::Info,
        ServiceEventType::Started { .. } => AuditSeverity::Info,
        ServiceEventType::HealthCheckPassed => AuditSeverity::Info,
        ServiceEventType::ReadyCheckPassed => AuditSeverity::Info,
        ServiceEventType::DependencyMet { .. } => AuditSeverity::Info,
        ServiceEventType::Enabled => AuditSeverity::Info,
        ServiceEventType::Disabled => AuditSeverity::Info,
        ServiceEventType::Stopped { exit_status } => if exit_status == ExitStatus::Code(0) {
            AuditSeverity::Info
        } else {
            AuditSeverity::Error
        },
        ServiceEventType::Stopping => AuditSeverity::Warning,
        ServiceEventType::Restarting { .. } => AuditSeverity::Warning,
        ServiceEventType::DependencyWaiting { .. } => AuditSeverity::Warning,
        ServiceEventType::HealthCheckFailed { .. } => AuditSeverity::Warning,
        ServiceEventType::ReadyCheckFailed => AuditSeverity::Warning,
        ServiceEventType::TimeoutKilled => AuditSeverity::Error,
        ServiceEventType::CrashDetected { .. } => AuditSeverity::Error,
    }
}

/// The audit severity of a service event type.
pub fn event_severity(event_type: &ServiceEventType) -> (s: AuditSeverity)
    ensures
        s == severity_of(*event_type),
{
    match event_type {
        ServiceEventType::Starting => AuditSeverity::Info,
        ServiceEventType::Started { .. } => AuditSeverity::Info,
        ServiceEventType::HealthCheckPassed => AuditSeverity::Info,
        ServiceEventType::ReadyCheckPassed => AuditSeverity::Info,
        ServiceEventType::DependencyMet { .. } => AuditSeverity::Info,
        ServiceEventType::Enabled => AuditSeverity::Info,
        ServiceEventType::Disabled => AuditSeverity::Info,
        ServiceEventType::Stopped { exit_status } => match exit_status {
            ExitStatus::Code(c) => if *c == 0 {
                AuditSeverity::Info
            } else {
                AuditSeverity::Error
            },
            _ => AuditSeverity::Error,
        },
        ServiceEventType::Stopping => AuditSeverity::Warning,
        ServiceEventType::Restarting { .. } => AuditSeverity::Warning,
        ServiceEventType::DependencyWaiting { .. } => AuditSeverity::Warning,
        ServiceEventType::HealthCheckFailed { .. } => AuditSeverity::Warning,
        ServiceEventType::ReadyCheckFailed => AuditSeverity::Warning,
        ServiceEventType::TimeoutKilled => AuditSeverity::Error,
        ServiceEventType::CrashDetected { .. } => AuditSeverity::Error,
    }
}

/// An audit log: an append-only, hash-linked chain of entries.
pub struct AuditLog {
    chain: libro::AuditChain,
}

impl AuditLog {
    /// The entries of the log, oldest first, each as its severity rank,
    /// source, action, agent id and timestamp instant.
    pub closed spec fn entries(&self) -> Seq<EntryView> {
        chain_entries(self.chain)
    }

    /// The log never rotates its chain, and its chain is intact.
    pub closed spec fn wf(&self) -> bool {
        chain_limit(self.chain) is None && chain_intact(self.chain)
    }

    /// An empty audit log.
    pub fn new() -> (log: Self)
        ensures
            log.wf(),
            log.entries() == Seq::<EntryView>::empty(),
    {
        AuditLog { chain: chain_new() }
    }

    /// Records a service event as one entry: its severity, the source
    /// `argonaut`, the event's description as the action, no agent id, and
    /// `details` (the event as JSON); it is stamped with the time of the
    /// call.
    pub fn record_service_event(&mut self, event: &ServiceEvent, details: serde_json::Value)
        requires
            old(self).wf(),
        ensures
            final(self).wf(),
            final(self).entries().len() == old(self).entries().len() + 1,
            final(self).entries().drop_last() == old(self).entries(),
            final(self).entries().last().0 == severity_of(event.event_type).rank(),
            final(self).entries().last().1 == "argonaut"@,
            final(self).entries().last().2 == event.event_type.text(),
            final(self).entries().last().3 is None,
    {
        let severity = event_severity(&event.event_type);
        let action = event.event_type.to_string();
        chain_append(&mut self.chain, libro_level(severity), "argonaut", action.as_str(), details);
        proof {
            reveal_strlit("argonaut");
        }
    }

    /// The entries that meet `query`, oldest first. Its times must be
    /// within about 250,000 years of the epoch.
    pub fn query(&self, query: &AuditQuery) -> (r: Vec<&libro::AuditEntry>)
        requires
            time_in_range(query.after_ms),
            time_in_range(query.before_ms),
        ensures
            r@.map_values(|e: &libro::AuditEntry| entry_fields(*e)) == self.entries().filter(
                |t: EntryView| query_matches(*query, t),
            ),
    {
        let level = match query.severity {
            Some(l) => Some(libro_level(l)),
            None => None,
        };
        let min_level = match query.min_severity {
            Some(l) => Some(libro_level(l)),
            None => None,
        };
        let r = chain_query(&self.chain, query, level, min_level);
        proof {
            assert((|t: EntryView| query_matches(*query, t)) =~= (|t: EntryView|
                filter_matches(*query, level, min_level, t)));
        }
        r
    }

    /// Number of entries.
    pub fn len(&self) -> (n: usize)
        ensures
            n == self.entries().len(),
    {
        chain_len(&self.chain)
    }

    /// Whether there is no entry.
    pub fn is_empty(&self) -> (b: bool)
        ensures
            b == (self.entries().len() == 0),
    {
        chain_len(&self.chain) == 0
    }

    /// Checks the integrity of the chain: every entry's hash, and the links
    /// between entries. A log that is only ever added to through this type
    /// passes.
    pub fn verify(&self) -> (r: Result<(), String>)
        requires
            self.wf(),
        ensures
            r is Ok,
    {
        chain_verify(&self.chain)
    }

    /// The underlying audit chain.
    pub fn chain(&self) -> (c: &libro::AuditChain)
        ensures
            chain_entries(*c) == self.entries(),
    {
        &self.chain
    }

    /// The entries from `source` (always `argonaut` for this log), oldest
    /// first.
    pub fn entries_by_source(&self, source: &str) -> (r: Vec<&libro::AuditEntry>)
        ensures
            r@.map_values(|e: &libro::AuditEntry| entry_fields(*e)) == self.entries().filter(
                |t: EntryView| t.1 == source@,
            ),
    {
        chain_by_source(&self.chain, source)
    }

    /// The entries at or above `severity`, oldest first.
    pub fn entries_by_severity(&self, severity: AuditSeverity) -> (r: Vec<&libro::AuditEntry>)
        ensures
            r@.map_values(|e: &libro::AuditEntry| entry_fields(*e)) == self.entries().filter(
                |t: EntryView| t.0 >= severity.rank(),
            ),
    {
        let level = libro_level(severity);
        let q = AuditQuery::new();
        let r = chain_query(&self.chain, &q, None, Some(level));
        proof {
            assert((|t: EntryView| t.0 >= severity.rank()) =~= (|t: EntryView|
                filter_matches(q, None, Some(level), t)));
        }
        r
    }
}

impl Default for AuditLog {
    fn default() -> (log: Self)
        ensures
            log.wf(),
            log.entries() == Seq::<EntryView>::empty(),
    {
        AuditLog::new()
    }
}

} // verus!
