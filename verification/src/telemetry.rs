//! Runtime health: counters of warnings, resyncs, recoveries, observations
//! and action outcomes, and the status report built from them.
use vstd::prelude::*;

use crate::artifacts::{ArtifactStore, ArtifactStorePressureState, ArtifactStoreStatus, pressure};
use crate::clock::now_unix_ms;
use crate::protocol::ActionStatus;
use crate::registry::{count_open, count_resync, SessionRegistry};
use crate::strmap::{has_key, key_index, lemma_sorted_unique, StrMap};
use crate::text::seq_less;
use crate::text::{occurs_at, opt_view, seq_contains, str_contains, str_starts_with};

verus! {

/// Outcome counters of one action kind.
#[derive(Clone, Debug, PartialEq, Eq)]
pub struct ActionOutcomeSummary {
    pub action: String,
    pub completed: u64,
    pub failed: u64,
    pub timed_out: u64,
    pub unsupported: u64,
}

/// Overall health.
#[derive(Clone, Copy, Debug, PartialEq, Eq, Structural)]
pub enum RuntimeHealthState {
    Healthy,
    Degraded,
}

/// Health and the reasons it is degraded, in ascending order.
#[derive(Clone, Debug, PartialEq, Eq)]
pub struct RuntimeHealthSummary {
    pub status: RuntimeHealthState,
    pub reasons: Vec<String>,
}

/// Resync and recovery counters.
#[derive(Clone, Debug, PartialEq, Eq)]
pub struct RuntimeRecoverySummary {
    pub resync_count: u64,
    pub last_resync_at_unix_ms: Option<i64>,
    pub last_resync_reason: Option<String>,
    pub recovery_count: u64,
    pub continuity_invalidated_count: u64,
    pub last_recovery_at_unix_ms: Option<i64>,
    pub last_recovery_reason: Option<String>,
    pub continuity_invalidated: bool,
}

/// Warning counters, by code and by class.
#[derive(Clone, Debug, PartialEq, Eq)]
pub struct RuntimeWarningSummary {
    pub total_count: u64,
    pub by_code: StrMap<u64>,
    pub by_class: StrMap<u64>,
    pub last_warning_at_unix_ms: Option<i64>,
    pub last_warning_code: Option<String>,
    pub last_warning_message: Option<String>,
}

/// Snapshot observation counters.
#[derive(Clone, Copy, Debug, PartialEq, Eq, Structural)]
pub struct RuntimeObservationSummary {
    pub snapshot_count: u64,
    pub fallback_heavy_snapshot_count: u64,
    pub last_fallback_heavy_at_unix_ms: Option<i64>,
    pub last_fallback_surface_count: usize,
}

/// The daemon's runtime status.
#[derive(Clone, Debug, PartialEq, Eq)]
pub struct RuntimeStatusReport {
    pub generated_at_unix_ms: i64,
    pub session_count: usize,
    pub active_session_count: usize,
    pub active_resync_sessions: usize,
    pub health: RuntimeHealthSummary,
    pub recoveries: RuntimeRecoverySummary,
    pub warnings: RuntimeWarningSummary,
    pub observations: RuntimeObservationSummary,
    pub actions: Vec<ActionOutcomeSummary>,
    pub artifact_store: ArtifactStoreStatus,
}

/// The counters.
#[derive(Clone, Debug)]
pub struct RuntimeTelemetry {
    pub resync_count: u64,
    pub last_resync_at_unix_ms: Option<i64>,
    pub last_resync_reason: Option<String>,
    pub recovery_count: u64,
    pub continuity_invalidated_count: u64,
    pub last_recovery_at_unix_ms: Option<i64>,
    pub last_recovery_reason: Option<String>,
    pub warning_counts_by_code: StrMap<u64>,
    pub warning_counts_by_class: StrMap<u64>,
    pub total_warning_count: u64,
    pub last_warning_at_unix_ms: Option<i64>,
    pub last_warning_code: Option<String>,
    pub last_warning_message: Option<String>,
    pub action_outcomes: StrMap<ActionOutcomeSummary>,
    pub snapshot_count: u64,
    pub fallback_heavy_snapshot_count: u64,
    pub last_fallback_heavy_at_unix_ms: Option<i64>,
    pub last_fallback_surface_count: usize,
    pub continuity_invalidated: bool,
}

impl RuntimeTelemetry {
    /// Maps sorted; no per-code or per-class count exceeds the total.
    pub open spec fn wf(&self) -> bool {
        &&& self.warning_counts_by_code.wf()
        &&& self.warning_counts_by_class.wf()
        &&& self.action_outcomes.wf()
        &&& forall|k: Seq<char>| #[trigger] self.action_outcomes@.contains_key(k) ==> self.action_outcomes@[k].action@ == k
        &&& forall|k: Seq<char>| #[trigger] self.warning_counts_by_code@.contains_key(k) ==> self.warning_counts_by_code@[k] <= self.total_warning_count
        &&& forall|k: Seq<char>| #[trigger] self.warning_counts_by_class@.contains_key(k) ==> self.warning_counts_by_class@[k] <= self.total_warning_count
    }
}

impl Default for RuntimeTelemetry {
    fn default() -> (r: Self)
        ensures
            r.wf(),
            r.resync_count == 0,
            r.recovery_count == 0,
            r.continuity_invalidated_count == 0,
            r.total_warning_count == 0,
            r.snapshot_count == 0,
            r.fallback_heavy_snapshot_count == 0,
            r.last_fallback_surface_count == 0,
            !r.continuity_invalidated,
            r.warning_counts_by_code@ == Map::<Seq<char>, u64>::empty(),
            r.warning_counts_by_class@ == Map::<Seq<char>, u64>::empty(),
            r.action_outcomes@ == Map::<Seq<char>, ActionOutcomeSummary>::empty(),
            r.last_resync_at_unix_ms is None && r.last_resync_reason is None,
            r.last_recovery_at_unix_ms is None && r.last_recovery_reason is None,
            r.last_warning_at_unix_ms is None && r.last_warning_code is None && r.last_warning_message is None,
            r.last_fallback_heavy_at_unix_ms is None,
    {
        RuntimeTelemetry {
            resync_count: 0,
            last_resync_at_unix_ms: None,
            last_resync_reason: None,
            recovery_count: 0,
            continuity_invalidated_count: 0,
            last_recovery_at_unix_ms: None,
            last_recovery_reason: None,
            warning_counts_by_code: StrMap::new(),
            warning_counts_by_class: StrMap::new(),
            total_warning_count: 0,
            last_warning_at_unix_ms: None,
            last_warning_code: None,
            last_warning_message: None,
            action_outcomes: StrMap::new(),
            snapshot_count: 0,
            fallback_heavy_snapshot_count: 0,
            last_fallback_heavy_at_unix_ms: None,
            last_fallback_surface_count: 0,
            continuity_invalidated: false,
        }
    }
}

/// The class of a warning code.
pub open spec fn warning_class(code: Seq<char>) -> Seq<char> {
    if seq_contains(code, "resync"@) || seq_contains(code, "recover"@) {
        "resync"@
    } else if occurs_at(code, "backend_"@, 0) {
        "backend"@
    } else if occurs_at(code, "artifact_"@, 0) {
        "artifact_store"@
    } else if occurs_at(code, "session_"@, 0) {
        "session"@
    } else {
        "general"@
    }
}

/// Resync and recovery codes first, then by prefix: backend, artifact store, session.
pub fn classify_warning_code(code: &str) -> (r: &'static str)
    ensures
        r@ == warning_class(code@),
{
    if str_contains(code, "resync") || str_contains(code, "recover") {
        "resync"
    } else if str_starts_with(code, "backend_") {
        "backend"
    } else if str_starts_with(code, "artifact_") {
        "artifact_store"
    } else if str_starts_with(code, "session_") {
        "session"
    } else {
        "general"
    }
}

/// A count in a map, zero when absent.
pub open spec fn count_of(m: Map<Seq<char>, u64>, k: Seq<char>) -> int {
    if m.contains_key(k) {
        m[k] as int
    } else {
        0
    }
}

/// Adds one to the count of `key`.
pub(crate) fn bump(m: &mut StrMap<u64>, key: &str, bound: u64)
    requires
        old(m).wf(),
        count_of(old(m)@, key@) < bound,
    ensures
        final(m).wf(),
        final(m)@ == old(m)@.insert(key@, (count_of(old(m)@, key@) + 1) as u64),
{
    let current: u64 = match m.get(key) {
        Some(v) => *v,
        None => 0,
    };
    m.insert(String::from_str(key), current + 1);
}

/// The reasons a runtime is degraded, in ascending order.
pub open spec fn health_reasons(resync_sessions: int, resyncs: u64, fallback_heavy: u64, backend_warnings: int, store: ArtifactStorePressureState) -> Seq<Seq<char>> {
    (if store != ArtifactStorePressureState::Healthy { seq!["artifact_store_pressure"@] } else { Seq::empty() })
        + (if backend_warnings > 0 { seq!["backend_degradation"@] } else { Seq::empty() })
        + (if fallback_heavy > 0 { seq!["fallback_heavy_observation"@] } else { Seq::empty() })
        + (if resyncs > 0 { seq!["resyncs_observed"@] } else { Seq::empty() })
        + (if resync_sessions > 0 { seq!["session_resync_required"@] } else { Seq::empty() })
}

/// Each degradation reason is reported exactly when its cause is present,
/// and the reasons are empty exactly when none is.
pub proof fn lemma_health_reasons_exact(resync_sessions: int, resyncs: u64, fallback_heavy: u64, backend_warnings: int, store: ArtifactStorePressureState)
    ensures
        health_reasons(resync_sessions, resyncs, fallback_heavy, backend_warnings, store).contains("resyncs_observed"@) <==> resyncs > 0,
        health_reasons(resync_sessions, resyncs, fallback_heavy, backend_warnings, store).contains("session_resync_required"@) <==> resync_sessions > 0,
        health_reasons(resync_sessions, resyncs, fallback_heavy, backend_warnings, store).contains("fallback_heavy_observation"@) <==> fallback_heavy > 0,
        health_reasons(resync_sessions, resyncs, fallback_heavy, backend_warnings, store).contains("backend_degradation"@) <==> backend_warnings > 0,
        health_reasons(resync_sessions, resyncs, fallback_heavy, backend_warnings, store).contains("artifact_store_pressure"@) <==> store != ArtifactStorePressureState::Healthy,
        (health_reasons(resync_sessions, resyncs, fallback_heavy, backend_warnings, store).len() == 0) <==> (resync_sessions <= 0 && resyncs == 0
            && fallback_heavy == 0 && backend_warnings <= 0 && store == ArtifactStorePressureState::Healthy),
{
    let n0 = "artifact_store_pressure"@;
    let n1 = "backend_degradation"@;
    let n2 = "fallback_heavy_observation"@;
    let n3 = "resyncs_observed"@;
    let n4 = "session_resync_required"@;
    assert(n0.len() == 23 && n0[0] == 'a') by { reveal_strlit("artifact_store_pressure"); }
    assert(n1.len() == 19) by { reveal_strlit("backend_degradation"); }
    assert(n2.len() == 26) by { reveal_strlit("fallback_heavy_observation"); }
    assert(n3.len() == 16) by { reveal_strlit("resyncs_observed"); }
    assert(n4.len() == 23 && n4[0] == 's') by { reveal_strlit("session_resync_required"); }
    lemma_reasons_contain(resync_sessions, resyncs, fallback_heavy, backend_warnings, store, n0);
    lemma_reasons_contain(resync_sessions, resyncs, fallback_heavy, backend_warnings, store, n1);
    lemma_reasons_contain(resync_sessions, resyncs, fallback_heavy, backend_warnings, store, n2);
    lemma_reasons_contain(resync_sessions, resyncs, fallback_heavy, backend_warnings, store, n3);
    lemma_reasons_contain(resync_sessions, resyncs, fallback_heavy, backend_warnings, store, n4);
}

/// Which texts the reasons hold.
proof fn lemma_reasons_contain(resync_sessions: int, resyncs: u64, fallback_heavy: u64, backend_warnings: int, store: ArtifactStorePressureState, x: Seq<char>)
    ensures
        health_reasons(resync_sessions, resyncs, fallback_heavy, backend_warnings, store).contains(x) == (
            (store != ArtifactStorePressureState::Healthy && x === "artifact_store_pressure"@)
            || (backend_warnings > 0 && x === "backend_degradation"@)
            || (fallback_heavy > 0 && x === "fallback_heavy_observation"@)
            || (resyncs > 0 && x === "resyncs_observed"@)
            || (resync_sessions > 0 && x === "session_resync_required"@)
        ),
{
    let p0 = if store != ArtifactStorePressureState::Healthy { seq!["artifact_store_pressure"@] } else { Seq::<Seq<char>>::empty() };
    let p1 = if backend_warnings > 0 { seq!["backend_degradation"@] } else { Seq::<Seq<char>>::empty() };
    let p2 = if fallback_heavy > 0 { seq!["fallback_heavy_observation"@] } else { Seq::<Seq<char>>::empty() };
    let p3 = if resyncs > 0 { seq!["resyncs_observed"@] } else { Seq::<Seq<char>>::empty() };
    let p4 = if resync_sessions > 0 { seq!["session_resync_required"@] } else { Seq::<Seq<char>>::empty() };
    crate::text::lemma_optional_contains(store != ArtifactStorePressureState::Healthy, "artifact_store_pressure"@, x);
    crate::text::lemma_optional_contains(backend_warnings > 0, "backend_degradation"@, x);
    crate::text::lemma_optional_contains(fallback_heavy > 0, "fallback_heavy_observation"@, x);
    crate::text::lemma_optional_contains(resyncs > 0, "resyncs_observed"@, x);
    crate::text::lemma_optional_contains(resync_sessions > 0, "session_resync_required"@, x);
    crate::text::lemma_concat_contains(p0, p1, x);
    crate::text::lemma_concat_contains(p0 + p1, p2, x);
    crate::text::lemma_concat_contains(p0 + p1 + p2, p3, x);
    crate::text::lemma_concat_contains(p0 + p1 + p2 + p3, p4, x);
    assert(health_reasons(resync_sessions, resyncs, fallback_heavy, backend_warnings, store) === p0 + p1 + p2 + p3 + p4);
}

/// A runtime status report is degraded, with the matching reason, whenever
/// resyncs were recorded, a session needs one, a snapshot was fallback-heavy,
/// a backend warning was counted, or the artifact store is under pressure;
/// and healthy, with no reason, otherwise.
pub proof fn lemma_runtime_status_health(r: RuntimeStatusReport, s: AgentRuntimeState, now: i64)
    requires
        is_runtime_status(r, s, now),
    ensures
        r.health.reasons@.map_values(|x: String| x@).contains("resyncs_observed"@) <==> s.telemetry.resync_count > 0,
        r.health.reasons@.map_values(|x: String| x@).contains("fallback_heavy_observation"@) <==> s.telemetry.fallback_heavy_snapshot_count > 0,
        r.health.reasons@.map_values(|x: String| x@).contains("backend_degradation"@) <==> count_of(s.telemetry.warning_counts_by_class@, "backend"@) > 0,
        r.health.reasons@.map_values(|x: String| x@).contains("session_resync_required"@) <==> r.active_resync_sessions > 0,
        r.health.reasons@.map_values(|x: String| x@).contains("artifact_store_pressure"@) <==> r.artifact_store.pressure_state != ArtifactStorePressureState::Healthy,
        s.telemetry.resync_count > 0 ==> r.health.status == RuntimeHealthState::Degraded,
        (r.health.status == RuntimeHealthState::Healthy) <==> (s.telemetry.resync_count == 0 && s.telemetry.fallback_heavy_snapshot_count == 0
            && count_of(s.telemetry.warning_counts_by_class@, "backend"@) <= 0 && r.active_resync_sessions == 0
            && r.artifact_store.pressure_state == ArtifactStorePressureState::Healthy),
{
    lemma_health_reasons_exact(
        r.active_resync_sessions as int,
        s.telemetry.resync_count,
        s.telemetry.fallback_heavy_snapshot_count,
        count_of(s.telemetry.warning_counts_by_class@, "backend"@),
        r.artifact_store.pressure_state,
    );
}

/// Appends `text` when `cond` holds.
fn push_if(v: &mut Vec<String>, cond: bool, text: &str)
    ensures
        final(v)@.map_values(|s: String| s@) == old(v)@.map_values(|s: String| s@) + (if cond { seq![text@] } else { Seq::empty() }),
{
    let ghost before = v@.map_values(|s: String| s@);
    if cond {
        v.push(String::from_str(text));
        assert(v@.map_values(|s: String| s@) =~= before + seq![text@]);
    } else {
        assert(v@.map_values(|s: String| s@) =~= before + Seq::<Seq<char>>::empty());
    }
}

/// Sessions, artifacts and counters of the running daemon.
pub struct AgentRuntimeState {
    pub sessions: SessionRegistry,
    pub artifacts: ArtifactStore,
    pub telemetry: RuntimeTelemetry,
}

impl AgentRuntimeState {
    /// A runtime with no sessions and fresh counters over an artifact store.
    pub fn new(artifacts: ArtifactStore) -> (r: Self)
        ensures
            r.wf(),
            r.sessions@ == Map::<Seq<char>, crate::registry::RecordV>::empty(),
            r.artifacts.records() == artifacts.records() && r.artifacts.wf() == artifacts.wf(),
            r.telemetry.total_warning_count == 0,
    {
        AgentRuntimeState { sessions: SessionRegistry::new(), artifacts, telemetry: RuntimeTelemetry::default() }
    }

    /// Registry and counters are well formed.
    pub open spec fn wf(&self) -> bool {
        self.sessions.wf() && self.telemetry.wf()
    }

    /// Counts a warning under its code and its class, and keeps it as the last.
    pub fn record_warning_at(&mut self, code: &str, message: &str, now_unix_ms: i64)
        requires
            old(self).wf(),
            old(self).telemetry.total_warning_count < u64::MAX,
        ensures
            final(self).wf(),
            final(self).telemetry.total_warning_count == old(self).telemetry.total_warning_count + 1,
            final(self).telemetry.warning_counts_by_code@ == old(self).telemetry.warning_counts_by_code@.insert(
                code@,
                (count_of(old(self).telemetry.warning_counts_by_code@, code@) + 1) as u64,
            ),
            final(self).telemetry.warning_counts_by_class@ == old(self).telemetry.warning_counts_by_class@.insert(
                warning_class(code@),
                (count_of(old(self).telemetry.warning_counts_by_class@, warning_class(code@)) + 1) as u64,
            ),
            final(self).telemetry.last_warning_at_unix_ms == Some(now_unix_ms),
            opt_view(final(self).telemetry.last_warning_code) == Some(code@),
            opt_view(final(self).telemetry.last_warning_message) == Some(message@),
            final(self).sessions@ == old(self).sessions@,
            final(self).telemetry.resync_count == old(self).telemetry.resync_count,
            final(self).telemetry.recovery_count == old(self).telemetry.recovery_count,
            final(self).telemetry.fallback_heavy_snapshot_count == old(self).telemetry.fallback_heavy_snapshot_count,
            final(self).telemetry.action_outcomes@ == old(self).telemetry.action_outcomes@,
    {
        let class = classify_warning_code(code);
        let t = &mut self.telemetry;
        let total = t.total_warning_count;
        proof {
            if t.warning_counts_by_code@.contains_key(code@) {
                assert(t.warning_counts_by_code@[code@] <= total);
            }
            if t.warning_counts_by_class@.contains_key(class@) {
                assert(t.warning_counts_by_class@[class@] <= total);
            }
        }
        bump(&mut t.warning_counts_by_code, code, total + 1);
        bump(&mut t.warning_counts_by_class, class, total + 1);
        t.total_warning_count = total + 1;
        t.last_warning_at_unix_ms = Some(now_unix_ms);
        t.last_warning_code = Some(String::from_str(code));
        t.last_warning_message = Some(String::from_str(message));
        proof {
            assert forall|k: Seq<char>| #[trigger] t.warning_counts_by_code@.contains_key(k) implies t.warning_counts_by_code@[k] <= t.total_warning_count by {
                if k != code@ {
                    assert(old(self).telemetry.warning_counts_by_code@.contains_key(k));
                }
            }
            assert forall|k: Seq<char>| #[trigger] t.warning_counts_by_class@.contains_key(k) implies t.warning_counts_by_class@[k] <= t.total_warning_count by {
                if k != class@ {
                    assert(old(self).telemetry.warning_counts_by_class@.contains_key(k));
                }
            }
        }
    }

    /// Counts a warning now.
    pub fn record_warning(&mut self, code: &str, message: &str)
        requires
            old(self).wf(),
            old(self).telemetry.total_warning_count < u64::MAX,
        ensures
            final(self).wf(),
            final(self).telemetry.total_warning_count == old(self).telemetry.total_warning_count + 1,
            final(self).telemetry.warning_counts_by_code@ == old(self).telemetry.warning_counts_by_code@.insert(
                code@,
                (count_of(old(self).telemetry.warning_counts_by_code@, code@) + 1) as u64,
            ),
            final(self).telemetry.warning_counts_by_class@ == old(self).telemetry.warning_counts_by_class@.insert(
                warning_class(code@),
                (count_of(old(self).telemetry.warning_counts_by_class@, warning_class(code@)) + 1) as u64,
            ),
            opt_view(final(self).telemetry.last_warning_code) == Some(code@),
            opt_view(final(self).telemetry.last_warning_message) == Some(message@),
            final(self).sessions@ == old(self).sessions@,
    {
        let now = now_unix_ms();
        self.record_warning_at(code, message, now);
    }

    /// Counts a resync and keeps its reason.
    pub fn record_resync_at(&mut self, reason: &str, now_unix_ms: i64)
        requires
            old(self).telemetry.resync_count < u64::MAX,
        ensures
            final(self).telemetry.resync_count == old(self).telemetry.resync_count + 1,
            final(self).telemetry.last_resync_at_unix_ms == Some(now_unix_ms),
            opt_view(final(self).telemetry.last_resync_reason) == Some(reason@),
            final(self).telemetry == (RuntimeTelemetry {
                resync_count: final(self).telemetry.resync_count,
                last_resync_at_unix_ms: Some(now_unix_ms),
                last_resync_reason: final(self).telemetry.last_resync_reason,
                ..old(self).telemetry
            }),
            final(self).wf() == old(self).wf(),
            final(self).artifacts == old(self).artifacts,
            final(self).sessions == old(self).sessions,
            final(self).sessions@ == old(self).sessions@,
    {
        self.telemetry.resync_count = self.telemetry.resync_count + 1;
        self.telemetry.last_resync_at_unix_ms = Some(now_unix_ms);
        self.telemetry.last_resync_reason = Some(String::from_str(reason));
    }

    /// Counts a resync now.
    pub fn record_resync(&mut self, reason: &str)
        requires
            old(self).telemetry.resync_count < u64::MAX,
        ensures
            final(self).telemetry.resync_count == old(self).telemetry.resync_count + 1,
            opt_view(final(self).telemetry.last_resync_reason) == Some(reason@),
            final(self).wf() == old(self).wf(),
            final(self).sessions@ == old(self).sessions@,
    {
        let now = now_unix_ms();
        self.record_resync_at(reason, now);
    }

    /// Counts a recovery; whether it broke continuity is kept, and counted when it did.
    pub fn record_recovery_at(&mut self, reason: &str, continuity_invalidated: bool, now_unix_ms: i64)
        requires
            old(self).telemetry.recovery_count < u64::MAX,
            old(self).telemetry.continuity_invalidated_count < u64::MAX,
        ensures
            final(self).telemetry.recovery_count == old(self).telemetry.recovery_count + 1,
            final(self).telemetry.continuity_invalidated_count == old(self).telemetry.continuity_invalidated_count
                + (if continuity_invalidated { 1int } else { 0int }),
            final(self).telemetry.continuity_invalidated == continuity_invalidated,
            final(self).telemetry.last_recovery_at_unix_ms == Some(now_unix_ms),
            opt_view(final(self).telemetry.last_recovery_reason) == Some(reason@),
            final(self).telemetry == (RuntimeTelemetry {
                recovery_count: final(self).telemetry.recovery_count,
                continuity_invalidated_count: final(self).telemetry.continuity_invalidated_count,
                last_recovery_at_unix_ms: Some(now_unix_ms),
                last_recovery_reason: final(self).telemetry.last_recovery_reason,
                continuity_invalidated: continuity_invalidated,
                ..old(self).telemetry
            }),
            final(self).sessions == old(self).sessions,
            final(self).wf() == old(self).wf(),
            final(self).artifacts == old(self).artifacts,
            final(self).sessions@ == old(self).sessions@,
    {
        self.telemetry.recovery_count = self.telemetry.recovery_count + 1;
        self.telemetry.last_recovery_at_unix_ms = Some(now_unix_ms);
        self.telemetry.last_recovery_reason = Some(String::from_str(reason));
        self.telemetry.continuity_invalidated = continuity_invalidated;
        if continuity_invalidated {
            self.telemetry.continuity_invalidated_count = self.telemetry.continuity_invalidated_count + 1;
        }
    }

    /// Counts a recovery now.
    pub fn record_recovery(&mut self, reason: &str, continuity_invalidated: bool)
        requires
            old(self).telemetry.recovery_count < u64::MAX,
            old(self).telemetry.continuity_invalidated_count < u64::MAX,
        ensures
            final(self).telemetry.recovery_count == old(self).telemetry.recovery_count + 1,
            final(self).telemetry.continuity_invalidated_count == old(self).telemetry.continuity_invalidated_count
                + (if continuity_invalidated { 1int } else { 0int }),
            final(self).telemetry.continuity_invalidated == continuity_invalidated,
            opt_view(final(self).telemetry.last_recovery_reason) == Some(reason@),
            final(self).wf() == old(self).wf(),
            final(self).sessions@ == old(self).sessions@,
    {
        let now = now_unix_ms();
        self.record_recovery_at(reason, continuity_invalidated, now);
    }

    /// Counts a snapshot; one built from two or more fallback surfaces is fallback-heavy.
    pub fn record_snapshot_observation_at(&mut self, fallback_surface_count: usize, now_unix_ms: i64)
        requires
            old(self).telemetry.snapshot_count < u64::MAX,
            old(self).telemetry.fallback_heavy_snapshot_count < u64::MAX,
        ensures
            final(self).telemetry.snapshot_count == old(self).telemetry.snapshot_count + 1,
            fallback_surface_count >= 2 ==> final(self).telemetry.fallback_heavy_snapshot_count
                == old(self).telemetry.fallback_heavy_snapshot_count + 1
                && final(self).telemetry.last_fallback_heavy_at_unix_ms == Some(now_unix_ms)
                && final(self).telemetry.last_fallback_surface_count == fallback_surface_count,
            fallback_surface_count < 2 ==> final(self).telemetry.fallback_heavy_snapshot_count
                == old(self).telemetry.fallback_heavy_snapshot_count
                && final(self).telemetry.last_fallback_heavy_at_unix_ms == old(self).telemetry.last_fallback_heavy_at_unix_ms
                && final(self).telemetry.last_fallback_surface_count == old(self).telemetry.last_fallback_surface_count,
            final(self).wf() == old(self).wf(),
            final(self).sessions@ == old(self).sessions@,
    {
        self.telemetry.snapshot_count = self.telemetry.snapshot_count + 1;
        if fallback_surface_count >= 2 {
            self.telemetry.fallback_heavy_snapshot_count = self.telemetry.fallback_heavy_snapshot_count + 1;
            self.telemetry.last_fallback_heavy_at_unix_ms = Some(now_unix_ms);
            self.telemetry.last_fallback_surface_count = fallback_surface_count;
        }
    }

    /// Counts a snapshot now.
    pub fn record_snapshot_observation(&mut self, fallback_surface_count: usize)
        requires
            old(self).telemetry.snapshot_count < u64::MAX,
            old(self).telemetry.fallback_heavy_snapshot_count < u64::MAX,
        ensures
            final(self).telemetry.snapshot_count == old(self).telemetry.snapshot_count + 1,
            fallback_surface_count >= 2 ==> final(self).telemetry.fallback_heavy_snapshot_count
                == old(self).telemetry.fallback_heavy_snapshot_count + 1
                && final(self).telemetry.last_fallback_surface_count == fallback_surface_count,
            fallback_surface_count < 2 ==> final(self).telemetry.fallback_heavy_snapshot_count
                == old(self).telemetry.fallback_heavy_snapshot_count,
            final(self).wf() == old(self).wf(),
            final(self).sessions@ == old(self).sessions@,
    {
        let now = now_unix_ms();
        self.record_snapshot_observation_at(fallback_surface_count, now);
    }
}

/// The four counters: completed, failed, timed out, unsupported.
pub open spec fn counts(o: ActionOutcomeSummary) -> (u64, u64, u64, u64) {
    (o.completed, o.failed, o.timed_out, o.unsupported)
}

/// The counters after one more result of `status`.
pub open spec fn bump_counts(c: (u64, u64, u64, u64), status: ActionStatus) -> (u64, u64, u64, u64) {
    match status {
        ActionStatus::Completed => ((c.0 + 1) as u64, c.1, c.2, c.3),
        ActionStatus::Failed => (c.0, (c.1 + 1) as u64, c.2, c.3),
        ActionStatus::TimedOut => (c.0, c.1, (c.2 + 1) as u64, c.3),
        ActionStatus::Unsupported => (c.0, c.1, c.2, (c.3 + 1) as u64),
    }
}

/// The counter `status` advances.
pub open spec fn outcome_count(o: ActionOutcomeSummary, status: ActionStatus) -> u64 {
    match status {
        ActionStatus::Completed => o.completed,
        ActionStatus::Failed => o.failed,
        ActionStatus::TimedOut => o.timed_out,
        ActionStatus::Unsupported => o.unsupported,
    }
}

impl AgentRuntimeState {
    /// Counts one result of an action, starting its counters at zero.
    pub fn record_action_result(&mut self, action: &str, status: &ActionStatus)
        requires
            old(self).wf(),
            old(self).telemetry.action_outcomes@.contains_key(action@) ==> outcome_count(
                old(self).telemetry.action_outcomes@[action@],
                *status,
            ) < u64::MAX,
        ensures
            final(self).wf(),
            final(self).telemetry.action_outcomes@.contains_key(action@),
            final(self).telemetry.action_outcomes@.remove(action@) == old(self).telemetry.action_outcomes@.remove(action@),
            old(self).telemetry.action_outcomes@.contains_key(action@) ==> counts(final(self).telemetry.action_outcomes@[action@])
                == bump_counts(counts(old(self).telemetry.action_outcomes@[action@]), *status)
                && final(self).telemetry.action_outcomes@[action@].action@ == old(self).telemetry.action_outcomes@[action@].action@,
            !old(self).telemetry.action_outcomes@.contains_key(action@) ==> counts(final(self).telemetry.action_outcomes@[action@])
                == bump_counts((0, 0, 0, 0), *status)
                && final(self).telemetry.action_outcomes@[action@].action@ == action@,
            final(self).sessions@ == old(self).sessions@,
            final(self).telemetry.total_warning_count == old(self).telemetry.total_warning_count,
    {
        let t = &mut self.telemetry;
        let mut o = match t.action_outcomes.get(action) {
            Some(e) => ActionOutcomeSummary {
                action: e.action.clone(),
                completed: e.completed,
                failed: e.failed,
                timed_out: e.timed_out,
                unsupported: e.unsupported,
            },
            None => ActionOutcomeSummary { action: String::from_str(action), completed: 0, failed: 0, timed_out: 0, unsupported: 0 },
        };
        match status {
            ActionStatus::Completed => o.completed = o.completed + 1,
            ActionStatus::Failed => o.failed = o.failed + 1,
            ActionStatus::TimedOut => o.timed_out = o.timed_out + 1,
            ActionStatus::Unsupported => o.unsupported = o.unsupported + 1,
        }
        t.action_outcomes.insert(String::from_str(action), o);
        assert(t.action_outcomes@.remove(action@) =~= old(self).telemetry.action_outcomes@.remove(action@));
    }
}

/// A copy of a map of counts.
pub(crate) fn copy_counts(m: &StrMap<u64>) -> (r: StrMap<u64>)
    requires
        m.wf(),
    ensures
        r.wf(),
        r@ == m@,
        r.entries@.len() == m.entries@.len(),
        forall|i: int| 0 <= i < m.entries@.len() ==> #[trigger] r.entries@[i].0@ == m.entries@[i].0@ && r.entries@[i].1 == m.entries@[i].1,
{
    let mut entries: Vec<(String, u64)> = Vec::new();
    let mut i: usize = 0;
    while i < m.entries.len()
        invariant
            i <= m.entries@.len(),
            entries@.len() == i,
            forall|j: int| 0 <= j < i ==> #[trigger] entries@[j].0@ == m.entries@[j].0@ && entries@[j].1 == m.entries@[j].1,
        decreases m.entries@.len() - i,
    {
        entries.push((m.entries[i].0.clone(), m.entries[i].1));
        i = i + 1;
    }
    let r = StrMap { entries };
    proof {
        assert forall|a: int, b: int| 0 <= a < b < r.entries@.len() implies crate::text::seq_less(
            #[trigger] r.entries@[a].0@,
            #[trigger] r.entries@[b].0@,
        ) by {
            assert(crate::text::seq_less(m.entries@[a].0@, m.entries@[b].0@));
        }
        assert forall|k: Seq<char>| #[trigger] crate::strmap::has_key(r.entries@, k) == crate::strmap::has_key(m.entries@, k) by {
            if crate::strmap::has_key(r.entries@, k) {
                let j = choose|j: int| 0 <= j < r.entries@.len() && #[trigger] r.entries@[j].0@ == k;
                assert(m.entries@[j].0@ == k);
            }
            if crate::strmap::has_key(m.entries@, k) {
                let j = choose|j: int| 0 <= j < m.entries@.len() && #[trigger] m.entries@[j].0@ == k;
                assert(r.entries@[j].0@ == k);
            }
        }
        assert forall|k: Seq<char>| crate::strmap::has_key(r.entries@, k) implies r.entries@[crate::strmap::key_index(r.entries@, k)].1
            == m.entries@[crate::strmap::key_index(m.entries@, k)].1 by {
            let a = crate::strmap::key_index(r.entries@, k);
            let b = crate::strmap::key_index(m.entries@, k);
            assert(m.entries@[a].0@ == k);
            crate::strmap::lemma_sorted_unique(m.entries@, a, b);
        }
        assert(r@ =~= m@);
    }
    r
}

/// `r` is the runtime status of `s` at `now` (see `runtime_status_at`):
/// action summaries in ascending order of their names.
pub open spec fn is_runtime_status(r: RuntimeStatusReport, s: AgentRuntimeState, now: i64) -> bool {
    &&& r.generated_at_unix_ms == now
    &&& r.session_count == s.sessions@.dom().len()
    &&& r.active_session_count == count_open(s.sessions@, s.sessions.ids())
    &&& r.active_resync_sessions == count_resync(s.sessions@, s.sessions.ids())
    &&& r.health.reasons@.map_values(|x: String| x@) == health_reasons(
        count_resync(s.sessions@, s.sessions.ids()) as int,
        s.telemetry.resync_count,
        s.telemetry.fallback_heavy_snapshot_count,
        count_of(s.telemetry.warning_counts_by_class@, "backend"@),
        pressure(s.artifacts.entries().len() as int, s.artifacts.total() as int, s.artifacts.policy()),
    )
    &&& r.health.status == (if r.health.reasons@.len() == 0 {
        RuntimeHealthState::Healthy
    } else {
        RuntimeHealthState::Degraded
    })
    &&& r.recoveries.resync_count == s.telemetry.resync_count
    &&& r.recoveries.last_resync_at_unix_ms == s.telemetry.last_resync_at_unix_ms
    &&& opt_view(r.recoveries.last_resync_reason) == opt_view(s.telemetry.last_resync_reason)
    &&& r.recoveries.recovery_count == s.telemetry.recovery_count
    &&& r.recoveries.continuity_invalidated_count == s.telemetry.continuity_invalidated_count
    &&& r.recoveries.last_recovery_at_unix_ms == s.telemetry.last_recovery_at_unix_ms
    &&& opt_view(r.recoveries.last_recovery_reason) == opt_view(s.telemetry.last_recovery_reason)
    &&& r.recoveries.continuity_invalidated == s.telemetry.continuity_invalidated
    &&& r.warnings.total_count == s.telemetry.total_warning_count
    &&& r.warnings.by_code@ == s.telemetry.warning_counts_by_code@
    &&& r.warnings.by_class@ == s.telemetry.warning_counts_by_class@
    &&& r.warnings.by_code.wf() && r.warnings.by_class.wf()
    &&& r.warnings.last_warning_at_unix_ms == s.telemetry.last_warning_at_unix_ms
    &&& opt_view(r.warnings.last_warning_code) == opt_view(s.telemetry.last_warning_code)
    &&& opt_view(r.warnings.last_warning_message) == opt_view(s.telemetry.last_warning_message)
    &&& r.observations == (RuntimeObservationSummary {
        snapshot_count: s.telemetry.snapshot_count,
        fallback_heavy_snapshot_count: s.telemetry.fallback_heavy_snapshot_count,
        last_fallback_heavy_at_unix_ms: s.telemetry.last_fallback_heavy_at_unix_ms,
        last_fallback_surface_count: s.telemetry.last_fallback_surface_count,
    })
    &&& r.actions@.len() == s.telemetry.action_outcomes.entries@.len()
    &&& forall|i: int| 0 <= i < r.actions@.len() ==> #[trigger] r.actions@[i].action@ == s.telemetry.action_outcomes.entries@[i].1.action@
        && counts(r.actions@[i]) == counts(s.telemetry.action_outcomes.entries@[i].1)
    &&& r.artifact_store.artifact_count == s.artifacts.entries().len()
    &&& r.artifact_store.total_bytes == s.artifacts.total()
    &&& r.artifact_store.pressure_state == pressure(s.artifacts.entries().len() as int, s.artifacts.total() as int, s.artifacts.policy())
    &&& forall|i: int, j: int| 0 <= i < j < r.actions@.len() ==> seq_less(#[trigger] r.actions@[i].action@, #[trigger] r.actions@[j].action@)
}

/// The action summaries, kept by name, are in ascending order of their names.
proof fn lemma_outcomes_sorted(m: StrMap<ActionOutcomeSummary>)
    requires
        m.wf(),
        forall|k: Seq<char>| #[trigger] m@.contains_key(k) ==> m@[k].action@ == k,
    ensures
        forall|i: int, j: int| 0 <= i < j < m.entries@.len() ==> seq_less(#[trigger] m.entries@[i].1.action@, #[trigger] m.entries@[j].1.action@),
{
    assert forall|i: int| 0 <= i < m.entries@.len() implies (#[trigger] m.entries@[i]).1.action@ == m.entries@[i].0@ by {
        let k = m.entries@[i].0@;
        assert(has_key(m.entries@, k));
        assert(m@.contains_key(k));
        let b = key_index(m.entries@, k);
        lemma_sorted_unique(m.entries@, i, b);
    }
}

impl AgentRuntimeState {
    /// The runtime status at `now_unix_ms`: degraded, with its reasons in
    /// ascending order, when a session needs a resync, resyncs happened, a
    /// snapshot was fallback-heavy, a backend warning was counted, or the
    /// artifact store is over a limit; healthy otherwise.
    pub fn runtime_status_at(&self, now_unix_ms: i64) -> (r: RuntimeStatusReport)
        requires
            self.wf(),
        ensures
            is_runtime_status(r, *self, now_unix_ms),
    {
        let artifact_store = self.artifacts.status();
        let resync_sessions = self.sessions.resync_required_count();
        let backend: u64 = match self.telemetry.warning_counts_by_class.get("backend") {
            Some(v) => *v,
            None => 0,
        };
        let mut reasons: Vec<String> = Vec::new();
        push_if(&mut reasons, artifact_store.pressure_state != ArtifactStorePressureState::Healthy, "artifact_store_pressure");
        push_if(&mut reasons, backend > 0, "backend_degradation");
        push_if(&mut reasons, self.telemetry.fallback_heavy_snapshot_count > 0, "fallback_heavy_observation");
        push_if(&mut reasons, self.telemetry.resync_count > 0, "resyncs_observed");
        push_if(&mut reasons, resync_sessions > 0, "session_resync_required");
        let status = if reasons.len() == 0 {
            RuntimeHealthState::Healthy
        } else {
            RuntimeHealthState::Degraded
        };
        let mut actions: Vec<ActionOutcomeSummary> = Vec::new();
        let mut i: usize = 0;
        while i < self.telemetry.action_outcomes.entries.len()
            invariant
                i <= self.telemetry.action_outcomes.entries@.len(),
                actions@.len() == i,
                forall|j: int| 0 <= j < i ==> #[trigger] actions@[j].action@ == self.telemetry.action_outcomes.entries@[j].1.action@
                    && counts(actions@[j]) == counts(self.telemetry.action_outcomes.entries@[j].1),
            decreases self.telemetry.action_outcomes.entries@.len() - i,
        {
            let e = &self.telemetry.action_outcomes.entries[i].1;
            actions.push(ActionOutcomeSummary {
                action: e.action.clone(),
                completed: e.completed,
                failed: e.failed,
                timed_out: e.timed_out,
                unsupported: e.unsupported,
            });
            i = i + 1;
        }
        proof {
            lemma_outcomes_sorted(self.telemetry.action_outcomes);
        }
        let t = &self.telemetry;
        RuntimeStatusReport {
            generated_at_unix_ms: now_unix_ms,
            session_count: self.sessions.len(),
            active_session_count: self.sessions.active_len(),
            active_resync_sessions: resync_sessions,
            health: RuntimeHealthSummary { status, reasons },
            recoveries: RuntimeRecoverySummary {
                resync_count: t.resync_count,
                last_resync_at_unix_ms: t.last_resync_at_unix_ms,
                last_resync_reason: crate::text::copy_opt_string(&t.last_resync_reason),
                recovery_count: t.recovery_count,
                continuity_invalidated_count: t.continuity_invalidated_count,
                last_recovery_at_unix_ms: t.last_recovery_at_unix_ms,
                last_recovery_reason: crate::text::copy_opt_string(&t.last_recovery_reason),
                continuity_invalidated: t.continuity_invalidated,
            },
            warnings: RuntimeWarningSummary {
                total_count: t.total_warning_count,
                by_code: copy_counts(&t.warning_counts_by_code),
                by_class: copy_counts(&t.warning_counts_by_class),
                last_warning_at_unix_ms: t.last_warning_at_unix_ms,
                last_warning_code: crate::text::copy_opt_string(&t.last_warning_code),
                last_warning_message: crate::text::copy_opt_string(&t.last_warning_message),
            },
            observations: RuntimeObservationSummary {
                snapshot_count: t.snapshot_count,
                fallback_heavy_snapshot_count: t.fallback_heavy_snapshot_count,
                last_fallback_heavy_at_unix_ms: t.last_fallback_heavy_at_unix_ms,
                last_fallback_surface_count: t.last_fallback_surface_count,
            },
            actions,
            artifact_store,
        }
    }

    /// The runtime status now: as `runtime_status_at` gives it at the time
    /// of the report.
    pub fn runtime_status(&self) -> (r: RuntimeStatusReport)
        requires
            self.wf(),
        ensures
            is_runtime_status(r, *self, r.generated_at_unix_ms),
    {
        let now = now_unix_ms();
        self.runtime_status_at(now)
    }
}

} // verus!
