use vmui::agent::{forward_backend_diff, forward_refreshed_snapshot, refresh_failed_warning};
use vmui::protocol::ServerMessage;
use vmui::artifacts::{artifact_file_name, ArtifactRetentionPolicy, ArtifactStore};
use vmui::protocol::{
    ActionStatus, ArtifactDescriptor, ArtifactId, BackendKind, DiffOp, ElementId, ElementNode,
    ElementStates, Locator, ObservationScope, Rect, SessionId, SessionMode, SessionProfile,
    UiDiffBatch, UiSnapshot, WindowId, WindowState,
};
use vmui::registry::{SessionRegistry, SessionRuntime};
use vmui::state::{StateError, UiStateStore};
use vmui::telemetry::{AgentRuntimeState, RuntimeHealthState};

const NOW_MS: i64 = 1_700_000_000_000;

fn child_node() -> ElementNode {
    ElementNode {
        element_id: ElementId::from_text("elt-child"),
        parent_id: Some(ElementId::from_text("elt-root")),
        backend: BackendKind::Uia,
        control_type: "Button".to_owned(),
        class_name: Some("Button".to_owned()),
        name: Some("Open".to_owned()),
        automation_id: Some("open".to_owned()),
        native_window_handle: None,
        bounds: Rect { left: 10, top: 10, width: 40, height: 20 },
        locator: Locator { window_fingerprint: "1cv8.exe:Test".to_owned(), path: Vec::new() },
        properties: Vec::new(),
        states: ElementStates::default(),
        children: Vec::new(),
        confidence_bits: 1.0f64.to_bits(),
    }
}

fn snapshot(session_id: SessionId, rev: u64) -> UiSnapshot {
    UiSnapshot {
        session_id,
        rev,
        profile: SessionProfile {
            observation_scope: ObservationScope::Desktop,
            domain_profile: vmui::protocol::DomainProfile::OnecEnterpriseUi,
            target_filter: None,
        },
        captured_at_unix_ms: NOW_MS,
        windows: vec![WindowState {
            window_id: WindowId::from_text("wnd-1"),
            pid: 42,
            process_name: Some("1cv8.exe".to_owned()),
            title: "Test".to_owned(),
            bounds: Rect::default(),
            backend: BackendKind::Uia,
            confidence_bits: 1.0f64.to_bits(),
            root: ElementNode {
                element_id: ElementId::from_text("elt-root"),
                parent_id: None,
                backend: BackendKind::Uia,
                control_type: "Window".to_owned(),
                class_name: None,
                name: Some("Test".to_owned()),
                automation_id: None,
                native_window_handle: None,
                bounds: Rect::default(),
                locator: Locator { window_fingerprint: "1cv8.exe:Test".to_owned(), path: Vec::new() },
                properties: Vec::new(),
                states: ElementStates::default(),
                children: vec![child_node()],
                confidence_bits: 1.0f64.to_bits(),
            },
        }],
    }
}

fn focus_diff() -> UiDiffBatch {
    UiDiffBatch {
        base_rev: 3,
        new_rev: 4,
        emitted_at_unix_ms: NOW_MS,
        ops: vec![DiffOp::FocusChanged {
            window_id: WindowId::from_text("wnd-1"),
            element_id: Some(ElementId::from_text("elt-child")),
        }],
    }
}

/// Writes an artifact's index entry the way the daemon does after the file
/// is on disk, then enforces retention.
fn write_artifact(store: &mut ArtifactStore, kind: &str, mime_type: &str, bytes: &[u8], now: i64) -> ArtifactDescriptor {
    let artifact_id = ArtifactId::new("art", ((now as u128) << 64) | ((store.status().artifact_count as u128) << 32) | bytes.len() as u128);
    let path = format!("{}/{}", store.root(), artifact_file_name(&artifact_id, mime_type));
    let descriptor = store.register_written(artifact_id, None, kind, mime_type, bytes.len() as u64, &path, now);
    let mut removed_count = 0usize;
    let mut removed_bytes = 0u64;
    for id in store.cleanup_candidates(now) {
        if let Some(record) = store.remove_record(&id) {
            removed_count += 1;
            removed_bytes += record.descriptor.size_bytes;
        }
    }
    store.finish_cleanup(removed_count, removed_bytes, now, "retention_enforced_after_write");
    descriptor
}

#[test]
fn state_store_rejects_diff_without_snapshot() {
    let mut store = UiStateStore::default();
    let diff = UiDiffBatch { base_rev: 1, new_rev: 2, emitted_at_unix_ms: NOW_MS, ops: Vec::new() };

    let err = store.apply_diff(&diff).expect_err("diff must fail");
    assert_eq!(err, StateError::MissingSnapshot);
}

#[test]
fn state_store_tracks_revisions() {
    let mut store = UiStateStore::default();
    store.replace_snapshot(snapshot(SessionId::new("sess", 1), 3));

    let diff = UiDiffBatch { base_rev: 3, new_rev: 4, emitted_at_unix_ms: NOW_MS, ops: Vec::new() };

    store.apply_diff(&diff).expect("diff metadata must be accepted");

    assert_eq!(store.revision(), 4);
    assert_eq!(store.resync_reason(), None);
}

#[test]
fn state_store_marks_resync_from_diff() {
    let mut store = UiStateStore::default();
    store.replace_snapshot(snapshot(SessionId::new("sess", 1), 3));

    let diff = UiDiffBatch {
        base_rev: 3,
        new_rev: 4,
        emitted_at_unix_ms: NOW_MS,
        ops: vec![DiffOp::SnapshotResync { reason: "client gap".to_owned() }],
    };

    store.apply_diff(&diff).expect("diff metadata must be accepted");

    assert_eq!(store.resync_reason(), Some("client gap"));
}

#[test]
fn state_store_applies_focus_changed_to_snapshot_tree() {
    let session_id = SessionId::new("sess", 1);
    let mut store = UiStateStore::default();
    store.replace_snapshot(snapshot(session_id, 3));

    store.apply_diff(&focus_diff()).expect("focus diff must apply");

    let snapshot = store.snapshot().expect("snapshot must exist");
    assert!(!snapshot.windows[0].root.states.focused);
    assert!(snapshot.windows[0].root.children[0].states.focused);
}

#[test]
fn state_store_replaces_nodes_from_diff() {
    let session_id = SessionId::new("sess", 1);
    let mut store = UiStateStore::default();
    store.replace_snapshot(snapshot(session_id, 3));
    let replacement = ElementNode {
        element_id: ElementId::from_text("elt-child"),
        parent_id: Some(ElementId::from_text("elt-root")),
        backend: BackendKind::Mixed,
        control_type: "Edit".to_owned(),
        class_name: Some("V8Edit".to_owned()),
        name: Some("Search".to_owned()),
        automation_id: Some("search".to_owned()),
        native_window_handle: None,
        bounds: Rect { left: 15, top: 10, width: 80, height: 20 },
        locator: Locator { window_fingerprint: "1cv8.exe:Test".to_owned(), path: Vec::new() },
        properties: Vec::new(),
        states: ElementStates {
            enabled: true,
            visible: true,
            focused: false,
            selected: false,
            expanded: false,
            toggled: false,
        },
        children: Vec::new(),
        confidence_bits: 0.8f64.to_bits(),
    };

    let diff = UiDiffBatch {
        base_rev: 3,
        new_rev: 4,
        emitted_at_unix_ms: NOW_MS,
        ops: vec![DiffOp::NodeReplaced { element_id: ElementId::from_text("elt-child"), node: replacement }],
    };

    store.apply_diff(&diff).expect("replace diff must apply");

    let snapshot = store.snapshot().expect("snapshot must exist");
    assert_eq!(snapshot.windows[0].root.children[0].control_type, "Edit");
    assert_eq!(snapshot.windows[0].root.children[0].automation_id.as_deref(), Some("search"));
    assert_eq!(snapshot.windows[0].root.children[0].backend, BackendKind::Mixed);
}

#[test]
fn session_registry_persists_runtime_metadata() {
    let session_id = SessionId::new("sess", 1);
    let mut registry = SessionRegistry::default();
    registry.open_session(SessionRuntime::new(session_id.clone(), SessionMode::Configurator, "test-backend"));
    registry.mark_subscribed(&session_id, true).expect("session must exist");
    registry.apply_snapshot(&session_id, snapshot(session_id.clone(), 10)).expect("snapshot must apply");
    registry.close_session(&session_id).expect("close must succeed");

    let runtime = registry.runtime(&session_id).expect("runtime must exist");
    assert_eq!(runtime.mode, SessionMode::Configurator);
    assert_eq!(runtime.backend_id, "test-backend");
    assert_eq!(runtime.shallow, Some(true));
    assert_eq!(runtime.last_revision, Some(10));
    assert!(runtime.subscribed_at_unix_ms.is_some());
    assert!(runtime.closed_at_unix_ms.is_some());
}

#[test]
fn session_registry_keeps_recent_diffs_for_diagnostics() {
    let session_id = SessionId::new("sess", 1);
    let mut registry = SessionRegistry::default();
    registry.open_session(SessionRuntime::new(session_id.clone(), SessionMode::EnterpriseUi, "test-backend"));
    registry.apply_snapshot(&session_id, snapshot(session_id.clone(), 3)).expect("snapshot must apply");

    let diff = focus_diff();

    registry.apply_diff(&session_id, &diff).expect("diff must apply");

    let recent = registry.recent_diffs(&session_id).expect("recent diffs");
    assert_eq!(recent.len(), 1);
    assert_eq!(recent[0], diff);
}

#[test]
fn artifact_store_enforces_retention_limits() {
    let mut store = ArtifactStore::new(
        "/var/lib/vmui/artifacts",
        ArtifactRetentionPolicy {
            max_age_seconds: 24 * 60 * 60,
            max_bytes: 8,
            max_count: 1,
            cleanup_interval_seconds: 1,
        },
    );

    let first = write_artifact(&mut store, "log-text", "text/plain", b"1234", NOW_MS);
    let second = write_artifact(&mut store, "log-text", "text/plain", b"567890", NOW_MS);

    assert!(store.descriptor(&first.artifact_id).is_none());
    assert!(store.descriptor(&second.artifact_id).is_some());
    assert_eq!(store.status().artifact_count, 1);
    assert_eq!(store.status().total_bytes, 6);
}

#[test]
fn runtime_status_reports_recovery_and_warning_summaries() {
    let store = ArtifactStore::new("/var/lib/vmui/artifacts", ArtifactRetentionPolicy::default());
    let mut state = AgentRuntimeState::new(store);
    let session_id = SessionId::new("sess", 1);

    state.sessions.open_session(SessionRuntime::new(session_id.clone(), SessionMode::EnterpriseUi, "test-backend"));
    state.sessions.apply_snapshot(&session_id, snapshot(session_id.clone(), 1)).expect("apply snapshot");
    state.sessions.state(&session_id).expect("state exists").snapshot().expect("snapshot exists");

    state.record_warning("backend_degraded", "uia observer unavailable");
    state.record_resync("stale diff");
    state.record_recovery("observer restarted", true);
    state.record_snapshot_observation(3);
    state.record_action_result("wait_for", &ActionStatus::TimedOut);

    let report = state.runtime_status();

    assert_eq!(report.health.status, RuntimeHealthState::Degraded);
    assert!(report.health.reasons.iter().any(|reason| reason == "backend_degradation"));
    assert_eq!(report.recoveries.resync_count, 1);
    assert_eq!(report.recoveries.recovery_count, 1);
    assert!(report.recoveries.continuity_invalidated);
    assert_eq!(report.warnings.total_count, 1);
    assert_eq!(report.warnings.by_class.get("backend"), Some(&1));
    assert_eq!(report.observations.fallback_heavy_snapshot_count, 1);
    assert_eq!(report.actions.len(), 1);
    assert_eq!(report.actions[0].action, "wait_for");
    assert_eq!(report.actions[0].timed_out, 1);
}

#[test]
fn stale_diffs_resync_and_recover_through_a_fresh_snapshot() {

    let store = ArtifactStore::new("/var/lib/vmui/artifacts", ArtifactRetentionPolicy::default());
    let mut state = AgentRuntimeState::new(store);
    let session_id = SessionId::new("sess", 1);
    state.sessions.open_session(SessionRuntime::new(session_id.clone(), SessionMode::EnterpriseUi, "test-backend"));
    state.sessions.apply_snapshot(&session_id, snapshot(session_id.clone(), 10)).expect("apply snapshot");

    let stale = UiDiffBatch {
        base_rev: 9,
        new_rev: 10,
        emitted_at_unix_ms: 1_700_000_001_000,
        ops: vec![DiffOp::FocusChanged { window_id: WindowId::from_text("wnd-1"), element_id: Some(ElementId::from_text("elt-1")) }],
    };
    let forwarded = forward_backend_diff(&mut state, &session_id, &stale, true, 1_700_000_002_000);
    assert!(forwarded.refresh);
    assert_eq!(forwarded.messages.len(), 1);
    match &forwarded.messages[0] {
        ServerMessage::DiffBatch(signal) => {
            assert_eq!(signal.base_rev, 10);
            assert_eq!(signal.new_rev, 11);
            assert!(matches!(signal.ops[0], DiffOp::SnapshotResync { .. }));
        }
        other => panic!("unexpected message: {other:?}"),
    }
    let quiet = forward_backend_diff(&mut state, &session_id, &stale, false, 1_700_000_002_000);
    assert!(quiet.refresh && quiet.messages.is_empty());

    let sent = forward_refreshed_snapshot(&mut state, &session_id, snapshot(session_id.clone(), 11), true, 1_700_000_003_000);
    assert_eq!(sent.len(), 2);
    match &sent[0] {
        ServerMessage::InitialSnapshot(s) => assert_eq!(s.rev, 11),
        other => panic!("unexpected message: {other:?}"),
    }
    match &sent[1] {
        ServerMessage::Warning(w) => {
            assert_eq!(w.code, "session_state_recovered");
            assert!(w.message.contains("continuity_invalidated=true"));
        }
        other => panic!("unexpected message: {other:?}"),
    }
    assert_eq!(state.sessions.runtime(&session_id).and_then(|r| r.last_revision), Some(11));
    let report = state.runtime_status();
    assert_eq!(report.recoveries.resync_count, 2);
    assert_eq!(report.recoveries.recovery_count, 1);
    assert!(report.recoveries.continuity_invalidated);

    let gone = forward_refreshed_snapshot(&mut state, &SessionId::new("other", 2), snapshot(session_id.clone(), 12), true, 0);
    match &gone[..] {
        [ServerMessage::Warning(w)] => assert_eq!(w.code, "session_resync_apply_failed"),
        other => panic!("unexpected messages: {other:?}"),
    }
    assert_eq!(refresh_failed_warning("boom".to_owned()).code, "session_resync_refresh_failed");

    let applied = UiDiffBatch { base_rev: 11, new_rev: 12, emitted_at_unix_ms: 1, ops: vec![] };
    let forwarded = forward_backend_diff(&mut state, &session_id, &applied, false, 1);
    assert!(!forwarded.refresh && forwarded.messages.is_empty());
}

#[test]
fn identifiers_carry_a_version_four_uuid_from_the_random_bits() {
    let id = ArtifactId::new("art", 0);
    assert_eq!(id.as_str(), "art-00000000-0000-4000-8000-000000000000");
    let other = SessionId::new("sess", u128::MAX);
    assert_eq!(other.as_str(), "sess-ffffffff-ffff-4fff-bfff-ffffffffffff");
}
