use vmui::platform::{BackendActionResult, BackendArtifact};
use vmui::protocol::{
    ActionId, ActionResult, ActionStatus, ActionTarget, ArtifactDescriptor, ArtifactId,
    DomainProfile, HelloAck, ObservationScope, Rect, ServerMessage, SessionId, SessionProfile,
    UiSnapshot, WarningEvent, WindowId, WindowLocator,
};
use vmui::proxy::SessionStartup;
use vmui::proxy::{
    decide_after_failure, decide_before_attempt, resolve_session_id, ActionEnvelope,
    ActionOutcome, AttemptDecision, LocatorParams, LocatorSegmentParams, ProxyConfig,
    ProxyDomainProfile, ProxyObservationScope, ProxySessionProfile, ProxyWindowFilter,
    RectParams, SessionOpenResult, SessionResolveError, TargetParams, WorkerState,
};

fn config(addr: &str) -> ProxyConfig {
    ProxyConfig { daemon_addr: addr.to_owned() }
}

fn profile() -> SessionProfile {
    SessionProfile {
        observation_scope: ObservationScope::Desktop,
        domain_profile: DomainProfile::OnecEnterpriseUi,
        target_filter: None,
    }
}

fn empty_snapshot(rev: u64) -> UiSnapshot {
    UiSnapshot {
        session_id: SessionId::from_text("sess-1"),
        rev,
        profile: profile(),
        captured_at_unix_ms: 0,
        windows: Vec::new(),
    }
}

fn ack() -> HelloAck {
    HelloAck {
        session_id: SessionId::from_text("daemon-1"),
        server_version: "0.1.0".to_owned(),
        backend_id: "stub-backend".to_owned(),
        capabilities: vec!["uia".to_owned()],
        negotiated_profile: profile(),
    }
}

fn warning(code: &str, message: &str) -> WarningEvent {
    WarningEvent { code: code.to_owned(), message: message.to_owned() }
}

#[test]
fn daemon_addr_gets_http_scheme() {
    assert_eq!(config("127.0.0.1:50051").normalized_daemon_addr(), "http://127.0.0.1:50051");
}

#[test]
fn daemon_addr_keeps_existing_scheme_and_drops_white_space() {
    assert_eq!(config("  https://vm.local:50051\n").normalized_daemon_addr(), "https://vm.local:50051");
    assert_eq!(config("http://10.0.0.5:1").normalized_daemon_addr(), "http://10.0.0.5:1");
    assert_eq!(config("\u{3000}vm:7\t").normalized_daemon_addr(), "http://vm:7");
    assert_eq!(config("   ").normalized_daemon_addr(), "http://");
}

#[test]
fn named_session_must_be_open() {
    let active = vec!["mcp-a".to_owned(), "mcp-b".to_owned()];
    assert_eq!(resolve_session_id(Some("mcp-b"), &active), Ok("mcp-b".to_owned()));
    let err = resolve_session_id(Some("mcp-c"), &active).expect_err("unknown session");
    assert_eq!(err, SessionResolveError::UnknownSession { session_id: "mcp-c".to_owned() });
    assert!(err.is_not_found());
    assert_eq!(err.message(), "unknown session_id `mcp-c`");
}

#[test]
fn omitted_session_resolves_only_when_exactly_one_is_open() {
    let none: Vec<String> = Vec::new();
    let err = resolve_session_id(None, &none).expect_err("no session");
    assert_eq!(err, SessionResolveError::NoActiveSessions);
    assert_eq!(err.message(), "no active MCP sessions; call session_open first");
    assert!(!err.is_not_found());

    let one = vec!["mcp-a".to_owned()];
    assert_eq!(resolve_session_id(None, &one), Ok("mcp-a".to_owned()));

    let two = vec!["mcp-a".to_owned(), "mcp-b".to_owned()];
    let err = resolve_session_id(None, &two).expect_err("ambiguous");
    assert_eq!(err, SessionResolveError::SessionIdRequired);
    assert_eq!(err.message(), "session_id is required because multiple logical sessions are active");
}

#[test]
fn reads_reconnect_once_and_mutations_never() {
    assert_eq!(decide_before_attempt(true, true), AttemptDecision::Send);
    assert_eq!(decide_before_attempt(false, true), AttemptDecision::Send);
    assert_eq!(
        decide_before_attempt(true, false),
        AttemptDecision::Reconnect { reason: "daemon session stream lost".to_owned() }
    );
    assert_eq!(
        decide_before_attempt(false, false),
        AttemptDecision::Fail {
            message: "daemon session continuity was lost; retry the mutating action explicitly".to_owned()
        }
    );
    assert_eq!(
        decide_after_failure(true, 0, "forced_disconnect"),
        AttemptDecision::Reconnect { reason: "forced_disconnect".to_owned() }
    );
    assert_eq!(
        decide_after_failure(true, 1, "forced_disconnect"),
        AttemptDecision::Fail {
            message: "daemon action interrupted; retry is required because continuity was lost: forced_disconnect"
                .to_owned()
        }
    );
    assert!(matches!(decide_after_failure(false, 0, "x"), AttemptDecision::Fail { .. }));
}

#[test]
fn worker_counts_warnings_and_marks_recovered_continuity() {
    let mut state = WorkerState::default();
    state.record_warning(warning("backend_degraded", "slow"));
    state.record_warning(warning("backend_degraded", "slower"));
    assert_eq!(state.warning_counts.get("backend_degraded"), Some(&2));
    assert_eq!(state.last_warning, Some(warning("backend_degraded", "slower")));
    assert!(!state.continuity_invalidated);

    let r = state.apply_server_message(ServerMessage::Warning(warning("session_state_recovered", "observer restarted")));
    assert!(r.is_none());
    assert!(state.continuity_invalidated);
    assert_eq!(state.continuity_reason.as_deref(), Some("observer restarted"));
    assert_eq!(state.warning_counts.get("session_state_recovered"), Some(&1));
}

#[test]
fn worker_reconnect_invalidates_continuity() {
    let mut state = WorkerState::default();
    state.on_connected(ack(), empty_snapshot(3), false, None);
    assert!(state.connected);
    assert_eq!(state.daemon_session_id.as_deref(), Some("daemon-1"));
    assert_eq!(state.backend_id, "stub-backend");
    assert_eq!(state.snapshot.revision(), 3);
    assert_eq!(state.reconnect_count, 0);
    assert!(!state.continuity_invalidated);

    state.on_disconnected("daemon stream closed".to_owned());
    assert!(!state.connected);
    assert_eq!(state.unavailable_reason(), "daemon stream closed");

    state.on_connected(ack(), empty_snapshot(7), true, None);
    assert_eq!(state.reconnect_count, 1);
    assert!(state.continuity_invalidated);
    assert_eq!(
        state.continuity_reason.as_deref(),
        Some("daemon session was re-established and previous continuity is invalidated")
    );
    assert_eq!(state.disconnect_reason, None);

    state.on_connected(ack(), empty_snapshot(9), true, Some("forced_disconnect".to_owned()));
    assert_eq!(state.reconnect_count, 2);
    assert_eq!(state.continuity_reason.as_deref(), Some("forced_disconnect"));
}

#[test]
fn worker_forwards_action_results_and_tracks_snapshots() {
    let mut state = WorkerState::default();
    assert_eq!(state.unavailable_reason(), "daemon session is not connected");
    let result = ActionResult {
        action_id: ActionId::from_text("act-1"),
        ok: true,
        status: ActionStatus::Completed,
        message: String::new(),
        artifacts: Vec::new(),
    };
    assert_eq!(state.apply_server_message(ServerMessage::ActionResult(result.clone())), Some(result));
    assert!(state.apply_server_message(ServerMessage::InitialSnapshot(empty_snapshot(5))).is_none());
    assert_eq!(state.snapshot.revision(), 5);
    assert!(state.apply_server_message(ServerMessage::Pong).is_none());

    state.on_closed();
    assert!(!state.connected);
    assert_eq!(state.disconnect_reason.as_deref(), Some("session closed"));
}

#[test]
fn worker_status_reports_state() {
    let mut state = WorkerState::default();
    state.on_connected(ack(), empty_snapshot(4), false, None);
    state.record_warning(warning("backend_degraded", "slow"));
    let status = state.status("mcp-1", &profile());
    assert_eq!(status.session_id, "mcp-1");
    assert!(matches!(status.profile.observation_scope, ProxyObservationScope::Desktop));
    assert!(matches!(status.profile.domain_profile, ProxyDomainProfile::OnecEnterpriseUi));
    assert_eq!(status.daemon_session_id.as_deref(), Some("daemon-1"));
    assert_eq!(status.capabilities, vec!["uia".to_owned()]);
    assert!(status.connected);
    assert_eq!(status.snapshot_revision, Some(4));
    assert_eq!(status.window_count, Some(0));
    assert!(!status.resync_required);
    assert_eq!(status.warning_counts.get("backend_degraded"), Some(&1));

    let open = SessionOpenResult::from_status("mcp-1".to_owned(), status);
    assert_eq!(open.session_id, "mcp-1");
    assert_eq!(open.snapshot_revision, Some(4));
    assert_eq!(open.backend_id, "stub-backend");
}

#[test]
fn action_envelope_carries_session_outcome() {
    let mut state = WorkerState::default();
    state.on_connected(ack(), empty_snapshot(1), true, Some("forced_disconnect".to_owned()));
    let session = state.session_outcome(true);
    let result = ActionResult {
        action_id: ActionId::from_text("act-2"),
        ok: false,
        status: ActionStatus::Failed,
        message: "no window".to_owned(),
        artifacts: Vec::new(),
    };
    let envelope = ActionEnvelope::from_outcome("mcp-1".to_owned(), ActionOutcome { session, action_result: result.clone() });
    assert_eq!(envelope.session_id, "mcp-1");
    assert_eq!(envelope.daemon_session_id.as_deref(), Some("daemon-1"));
    assert!(envelope.connected);
    assert!(envelope.reconnected);
    assert!(envelope.continuity_invalidated);
    assert_eq!(envelope.continuity_reason.as_deref(), Some("forced_disconnect"));
    assert_eq!(envelope.action_result, result);
}

#[test]
fn target_params_map_to_domain_targets() {
    assert_eq!(TargetParams::Desktop.into_domain(), ActionTarget::Desktop);
    let window = TargetParams::Window {
        window_id: Some("wnd-1".to_owned()),
        title: None,
        pid: Some(7),
        process_name: Some("1cv8.exe".to_owned()),
        class_name: None,
    };
    assert_eq!(
        window.into_domain(),
        ActionTarget::Window(WindowLocator {
            window_id: Some(WindowId::from_text("wnd-1")),
            title: None,
            pid: Some(7),
            process_name: Some("1cv8.exe".to_owned()),
            class_name: None,
        })
    );
    let region = TargetParams::Region { window_id: None, bounds: RectParams { left: 1, top: 2, width: 3, height: 4 } };
    match region.into_domain() {
        ActionTarget::Region(r) => {
            assert_eq!(r.window_id, None);
            assert_eq!(r.bounds, Rect { left: 1, top: 2, width: 3, height: 4 });
        }
        other => panic!("unexpected target: {other:?}"),
    }
    let element = TargetParams::Element {
        element_id: Some("elt-1".to_owned()),
        locator: Some(LocatorParams {
            window_fingerprint: "1cv8.exe:1c".to_owned(),
            path: vec![
                LocatorSegmentParams {
                    control_type: "Pane".to_owned(),
                    class_name: None,
                    automation_id: None,
                    name: None,
                    sibling_ordinal: Some(0),
                },
                LocatorSegmentParams {
                    control_type: "Edit".to_owned(),
                    class_name: Some("V8Edit".to_owned()),
                    automation_id: Some("search".to_owned()),
                    name: Some("Поиск".to_owned()),
                    sibling_ordinal: None,
                },
            ],
        }),
    };
    match element.into_domain() {
        ActionTarget::Element(e) => {
            assert_eq!(e.element_id.map(|id| id.into_inner()), Some("elt-1".to_owned()));
            let locator = e.locator.expect("locator");
            assert_eq!(locator.window_fingerprint, "1cv8.exe:1c");
            assert_eq!(locator.path.len(), 2);
            assert_eq!(locator.path[0].control_type, "Pane");
            assert_eq!(locator.path[1].name.as_deref(), Some("Поиск"));
            assert_eq!(locator.path[1].automation_id.as_deref(), Some("search"));
        }
        other => panic!("unexpected target: {other:?}"),
    }
}

#[test]
fn session_profile_params_round_trip() {
    let params = ProxySessionProfile {
        observation_scope: ProxyObservationScope::AttachedWindows,
        domain_profile: ProxyDomainProfile::OnecConfigurator,
        target_filter: Some(ProxyWindowFilter {
            window_id: None,
            title: Some("Конфигуратор".to_owned()),
            pid: None,
            process_name: Some("1cv8.exe".to_owned()),
            class_name: None,
        }),
    };
    let domain = params.into_domain();
    assert_eq!(domain.observation_scope, ObservationScope::AttachedWindows);
    assert_eq!(domain.domain_profile, DomainProfile::OnecConfigurator);
    let filter = domain.target_filter.clone().expect("filter");
    assert_eq!(filter.title.as_deref(), Some("Конфигуратор"));
    let back = ProxySessionProfile::from_domain(domain);
    assert!(matches!(back.observation_scope, ProxyObservationScope::AttachedWindows));
    assert_eq!(back.target_filter.expect("filter").process_name.as_deref(), Some("1cv8.exe"));
}

#[test]
fn backend_result_takes_stored_descriptors() {
    let backend = BackendActionResult {
        action_id: ActionId::from_text("act-9"),
        ok: false,
        status: ActionStatus::TimedOut,
        message: "expired".to_owned(),
        artifacts: vec![BackendArtifact {
            kind: "snapshot-json".to_owned(),
            mime_type: "application/json".to_owned(),
            bytes: b"{}".to_vec(),
        }],
    };
    let stored = vec![ArtifactDescriptor {
        artifact_id: ArtifactId::from_text("art-1"),
        kind: "snapshot-json".to_owned(),
        mime_type: "application/json".to_owned(),
        size_bytes: 2,
    }];
    let result = backend.into_action_result(stored.clone());
    assert_eq!(result.action_id, ActionId::from_text("act-9"));
    assert!(!result.ok);
    assert_eq!(result.status, ActionStatus::TimedOut);
    assert_eq!(result.message, "expired");
    assert_eq!(result.artifacts, stored);
}

#[test]
fn reading_actions_take_their_json_from_the_first_artifact() {
    let descriptor = |id: &str| ArtifactDescriptor {
        artifact_id: ArtifactId::from_text(id),
        kind: "snapshot-json".to_owned(),
        mime_type: "application/json".to_owned(),
        size_bytes: 2,
    };
    let mut result = ActionResult {
        action_id: ActionId::from_text("act-read"),
        ok: true,
        status: ActionStatus::Completed,
        message: String::new(),
        artifacts: vec![descriptor("art-1"), descriptor("art-2")],
    };
    assert_eq!(
        vmui::proxy::read_artifact_of(&result),
        Ok(ArtifactId::from_text("art-1"))
    );
    result.artifacts.clear();
    assert_eq!(
        vmui::proxy::read_artifact_of(&result),
        Err("expected action artifact".to_owned())
    );
}

#[test]
fn read_envelopes_carry_the_session_facts_and_the_payload() {
    let payload = vmui::json::parse_json_text("{\"windows\":[]}").expect("json");
    let outcome = vmui::proxy::ReadActionOutcome {
        session: vmui::proxy::SessionOutcome {
            daemon_session_id: Some("daemon-1".to_owned()),
            connected: true,
            reconnected: true,
            continuity_invalidated: true,
            continuity_reason: Some("reconnected".to_owned()),
        },
        payload,
    };
    let envelope = vmui::proxy::ReadEnvelope::from_outcome("mcp-1".to_owned(), outcome);
    assert_eq!(envelope.session_id, "mcp-1");
    assert_eq!(envelope.daemon_session_id.as_deref(), Some("daemon-1"));
    assert!(envelope.connected && envelope.reconnected && envelope.continuity_invalidated);
    assert_eq!(envelope.continuity_reason.as_deref(), Some("reconnected"));
    assert_eq!(
        envelope.payload,
        vmui::json::JsonValue::Obj(vec![(
            "windows".to_owned(),
            vmui::json::JsonValue::Arr(vec![])
        )])
    );
}

#[test]
fn startup_completes_once_ack_and_snapshot_arrived() {
    let mut startup = SessionStartup::new();
    let warning = WarningEvent { code: "backend_degraded".to_owned(), message: "slow".to_owned() };
    assert!(!startup.on_message(ServerMessage::Warning(warning.clone())));
    assert!(!startup.on_message(ServerMessage::InitialSnapshot(empty_snapshot(1))));
    assert!(!startup.on_message(ServerMessage::Pong));
    assert!(!startup.on_message(ServerMessage::InitialSnapshot(empty_snapshot(2))));
    let ack = HelloAck {
        session_id: SessionId::from_text("sess-1"),
        server_version: "0.1.0".to_owned(),
        backend_id: "windows".to_owned(),
        capabilities: vec!["grpc-session".to_owned()],
        negotiated_profile: profile(),
    };
    assert!(startup.on_message(ServerMessage::HelloAck(ack.clone())));
    assert_eq!(startup.hello_ack, Some(ack));
    assert_eq!(startup.initial_snapshot.map(|s| s.rev), Some(2));
    assert_eq!(startup.warnings, vec![warning]);
    assert_eq!(SessionStartup::ended_early(), "daemon session ended before startup completed");
}
