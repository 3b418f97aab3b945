use vmui::agent::{
    artifact_chunks, backend_capabilities, hello_ack, list_windows_result, needs_snapshot_attachment,
    ocr_capture_request, ocr_fallback_result, panel_probe_target_missing, write_artifact_kind,
    write_artifact_result,
};
use vmui::platform::BackendCapabilities;
use vmui::protocol::{ActionStatus, ArtifactDescriptor, ArtifactId, CaptureOptions};
use vmui::agent::{
    backend_timeout_result, build_diagnostic_capture_target, enrich_action_target, fresh_snapshot,
    wait_outcome_message, wait_step, WaitStep,
    action_kind_label, apply_backend_diff, apply_refreshed_snapshot, build_tree_payload,
    normalize_snapshot_revision, resolve_element, resolve_window, session_step,
    should_attach_snapshot_artifact, subtree_has_focus, truncate_node_depth,
    wait_condition_matches, SessionPhase, SessionStep, TreePayload,
};
use vmui::compare::{
    compare_snapshots, normalize_text, normalized_optional_eq, stable_digest, summarize_node,
    summarize_window, window_match_score,
};
use vmui::protocol::{
    ActionId, ActionKind, ActionRequest, ActionTarget, BackendKind, CaptureFormat, CapturePolicy, ClientMessage,
    PanelProbeOptions,
    DiffOp, DomainProfile, ElementId, ElementLocator, ElementNode, ElementStates, Hello, Locator,
    LocatorSegment, ObservationScope, PropertyValue, ReadArtifactRequest, Rect, RegionTarget,
    SessionId, SessionMode, SessionProfile, Subscribe, TreeRequest, UiDiffBatch, UiSnapshot,
    WaitCondition, WaitForOptions, WindowId, WindowLocator, WindowState,
};
use vmui::registry::{SessionRegistry, SessionRuntime};

fn profile() -> SessionProfile {
    SessionProfile {
        observation_scope: ObservationScope::Desktop,
        domain_profile: DomainProfile::OnecEnterpriseUi,
        target_filter: None,
    }
}

fn conf(v: f32) -> u64 {
    (v as f64).to_bits()
}

fn sample_snapshot(session_id: SessionId, rev: u64) -> UiSnapshot {
    UiSnapshot {
        session_id,
        rev,
        profile: profile(),
        captured_at_unix_ms: 1_700_000_000_123,
        windows: vec![WindowState {
            window_id: WindowId::from_text("wnd-1"),
            pid: 10,
            process_name: Some("1cv8.exe".to_owned()),
            title: "1C".to_owned(),
            bounds: Rect { left: 0, top: 0, width: 800, height: 600 },
            backend: BackendKind::Mixed,
            confidence_bits: conf(0.9),
            root: ElementNode {
                element_id: ElementId::from_text("elt-1"),
                parent_id: None,
                backend: BackendKind::Mixed,
                control_type: "Window".to_owned(),
                class_name: Some("V8Wnd".to_owned()),
                name: Some("1C".to_owned()),
                automation_id: Some("root".to_owned()),
                native_window_handle: Some(10),
                bounds: Rect { left: 0, top: 0, width: 800, height: 600 },
                locator: Locator { window_fingerprint: "1cv8.exe:1C".to_owned(), path: vec![] },
                properties: Vec::new(),
                states: ElementStates {
                    enabled: true,
                    visible: true,
                    focused: true,
                    selected: false,
                    expanded: false,
                    toggled: false,
                },
                children: vec![],
                confidence_bits: conf(1.0),
            },
        }],
    }
}

fn sample_editor_node(window_fingerprint: &str, element_id: &str, parent_id: &str, name: &str) -> ElementNode {
    ElementNode {
        element_id: ElementId::from_text(element_id),
        parent_id: Some(ElementId::from_text(parent_id)),
        backend: BackendKind::Mixed,
        control_type: "Edit".to_owned(),
        class_name: Some("V8Edit".to_owned()),
        name: Some(name.to_owned()),
        automation_id: None,
        native_window_handle: None,
        bounds: Rect { left: 16, top: 24, width: 120, height: 28 },
        locator: Locator {
            window_fingerprint: window_fingerprint.to_owned(),
            path: vec![LocatorSegment {
                control_type: "Edit".to_owned(),
                class_name: Some("V8Edit".to_owned()),
                automation_id: None,
                name: Some(name.to_owned()),
                sibling_ordinal: None,
            }],
        },
        properties: vec![(
            "onec_profile".to_owned(),
            PropertyValue::String("ordinary_form_text_input".to_owned()),
        )],
        states: ElementStates {
            enabled: true,
            visible: true,
            focused: false,
            selected: false,
            expanded: false,
            toggled: false,
        },
        children: Vec::new(),
        confidence_bits: conf(0.9),
    }
}

fn snapshot_with_editor() -> UiSnapshot {
    let mut s = sample_snapshot(SessionId::from_text("sess-1"), 3);
    s.windows[0].root.states.focused = false;
    s.windows[0].root.children.push(sample_editor_node("1cv8.exe:1C", "elt-edit", "elt-1", "Поиск"));
    s
}

fn window_target(id: Option<&str>, title: Option<&str>, pid: Option<u32>) -> WindowLocator {
    WindowLocator {
        window_id: id.map(WindowId::from_text),
        title: title.map(str::to_owned),
        pid,
        process_name: None,
        class_name: None,
    }
}

#[test]
fn compare_snapshots_matches_cross_session_windows_semantically() {
    let mut expected = sample_snapshot(SessionId::from_text("sess-expected"), 1);
    expected.windows[0].window_id = WindowId::from_text("wnd-expected");
    expected.windows[0].root.element_id = ElementId::from_text("elt-expected");
    expected.windows[0].root.locator.window_fingerprint = "1cv8.exe:1c:expected".to_owned();
    expected.windows[0].root.native_window_handle = Some(55);
    expected.windows[0].root.children.push(sample_editor_node(
        "1cv8.exe:1c:expected",
        "elt-expected-editor",
        "elt-expected",
        "Поиск",
    ));

    let actual = sample_snapshot(SessionId::from_text("sess-actual"), 1);

    let comparison = compare_snapshots(&expected, &actual);

    assert!(!comparison.matches);
    assert_eq!(comparison.matched.len(), 1);
    assert_eq!(comparison.added.len(), 0);
    assert_eq!(comparison.removed.len(), 0);
    assert_eq!(comparison.changed.len(), 1);
    assert!(comparison.changed[0].changed_fields.iter().any(|value| *value == "tree_state"));
}

#[test]
fn identical_snapshots_compare_equal() {
    let a = snapshot_with_editor();
    let b = snapshot_with_editor();
    let comparison = compare_snapshots(&a, &b);
    assert!(comparison.matches);
    assert_eq!(comparison.matched.len(), 1);
    assert_eq!(comparison.matched[0].score, 16);
}

#[test]
fn unrelated_windows_are_added_and_removed() {
    let a = sample_snapshot(SessionId::from_text("s"), 1);
    let mut b = sample_snapshot(SessionId::from_text("s"), 1);
    b.windows[0].process_name = Some("notepad.exe".to_owned());
    b.windows[0].root.class_name = Some("Notepad".to_owned());
    let comparison = compare_snapshots(&a, &b);
    assert!(!comparison.matches);
    assert_eq!(comparison.matched.len(), 0);
    assert_eq!(comparison.added, vec![0]);
    assert_eq!(comparison.removed, vec![0]);
}

#[test]
fn window_summary_signature_and_score() {
    let s = snapshot_with_editor();
    let summary = summarize_window(&s.windows[0]);
    assert_eq!(summary.node_count, 2);
    assert_eq!(summary.fallback_surface_count, 0);
    assert_eq!(summary.confidence_bits, 0.9f32.to_bits());
    assert_eq!(summary.tree_digest, stable_digest(&summary.tree_signature));
    assert!(summary.tree_signature.starts_with(
        "backend=mixed;control=window;class=v8wnd;name=1c;automation=root;confidence=3f800000;states=enabled=true;visible=true;focused=false"
    ));
    assert!(summary.tree_signature.contains("properties=onec_profile=string:ordinary_form_text_input;children=[]"));
    assert_eq!(window_match_score(&summary, &summary), 16);
    let node = summarize_node(&s.windows[0].root.children[0]);
    assert_eq!(node.node_count, 1);
    assert!(node.signature.contains("name=поиск"));
}

#[test]
fn stable_digest_is_fnv1a() {
    assert_eq!(stable_digest(""), "cbf29ce484222325");
    assert_eq!(stable_digest("a"), "af63dc4c8601ec8c");
}

#[test]
fn text_normalization_collapses_white_space_and_case() {
    assert_eq!(normalize_text("  Hello\t  WORLD \n"), "hello world");
    assert_eq!(normalize_text("Поиск\u{3000}Товаров"), "поиск товаров");
    assert_eq!(normalize_text("   "), "");
    assert!(normalized_optional_eq(Some(" 1CV8.exe "), Some("1cv8.EXE")));
    assert!(!normalized_optional_eq(Some("  "), Some("")));
    assert!(!normalized_optional_eq(None, Some("x")));
}

#[test]
fn windows_resolve_by_id_title_pid_or_uniqueness() {
    let mut s = sample_snapshot(SessionId::from_text("s"), 1);
    assert_eq!(resolve_window(&s, &window_target(Some("wnd-1"), None, None)), Some(0));
    assert_eq!(resolve_window(&s, &window_target(Some("wnd-9"), None, None)), None);
    assert_eq!(resolve_window(&s, &window_target(None, None, None)), Some(0));
    let mut second = sample_snapshot(SessionId::from_text("s"), 1).windows.remove(0);
    second.window_id = WindowId::from_text("wnd-2");
    second.title = "Other".to_owned();
    second.pid = 20;
    s.windows.push(second);
    assert_eq!(resolve_window(&s, &window_target(None, None, None)), None);
    assert_eq!(resolve_window(&s, &window_target(None, Some("Other"), None)), Some(1));
    assert_eq!(resolve_window(&s, &window_target(None, Some("1C"), Some(20))), None);
    assert_eq!(resolve_window(&s, &window_target(None, None, Some(20))), Some(1));
}

#[test]
fn elements_resolve_by_id_then_locator() {
    let s = snapshot_with_editor();
    let by_id = resolve_element(&s, &Some(ElementId::from_text("elt-edit")), &None);
    assert_eq!(by_id, Some((0, vec![0])));
    let locator = s.windows[0].root.children[0].locator.clone();
    let by_locator = resolve_element(&s, &Some(ElementId::from_text("missing")), &Some(locator));
    assert_eq!(by_locator, Some((0, vec![0])));
    let wrong_window = Locator { window_fingerprint: "other".to_owned(), path: Vec::new() };
    assert_eq!(resolve_element(&s, &None, &Some(wrong_window)), None);
    assert_eq!(resolve_element(&s, &None, &None), None);
}

#[test]
fn wait_conditions_follow_the_snapshot() {
    let s = snapshot_with_editor();
    let element = ActionTarget::Element(ElementLocator { element_id: Some(ElementId::from_text("elt-edit")), locator: None });
    assert!(wait_condition_matches(&s, &element, &WaitCondition::Exists));
    assert!(wait_condition_matches(&s, &element, &WaitCondition::Visible));
    assert!(!wait_condition_matches(&s, &element, &WaitCondition::Focused));
    assert!(!wait_condition_matches(&s, &element, &WaitCondition::Gone));
    let missing = ActionTarget::Element(ElementLocator { element_id: Some(ElementId::from_text("nope")), locator: None });
    assert!(wait_condition_matches(&s, &missing, &WaitCondition::Gone));
    assert!(!wait_condition_matches(&s, &missing, &WaitCondition::Exists));
    let window = ActionTarget::Window(window_target(Some("wnd-1"), None, None));
    assert!(wait_condition_matches(&s, &window, &WaitCondition::Visible));
    assert!(!wait_condition_matches(&s, &window, &WaitCondition::Focused));
    assert!(!wait_condition_matches(&s, &ActionTarget::Desktop, &WaitCondition::Focused));
    assert!(!wait_condition_matches(&s, &ActionTarget::Desktop, &WaitCondition::Gone));
    let region = ActionTarget::Region(RegionTarget { window_id: Some(WindowId::from_text("wnd-2")), bounds: Rect::default() });
    assert!(wait_condition_matches(&s, &region, &WaitCondition::Gone));
    let focused = sample_snapshot(SessionId::from_text("s"), 1);
    assert!(subtree_has_focus(&focused.windows[0].root));
    assert!(wait_condition_matches(&focused, &ActionTarget::Desktop, &WaitCondition::Focused));
}

#[test]
fn snapshot_evidence_follows_policy() {
    let wait = ActionKind::WaitFor(WaitForOptions { condition: WaitCondition::Exists, stable_for_ms: 0 });
    assert!(should_attach_snapshot_artifact(&ActionKind::FocusWindow, &CapturePolicy::OnFailure, false));
    assert!(!should_attach_snapshot_artifact(&ActionKind::FocusWindow, &CapturePolicy::OnFailure, true));
    assert!(should_attach_snapshot_artifact(&wait, &CapturePolicy::Always, true));
    assert!(!should_attach_snapshot_artifact(&ActionKind::Invoke, &CapturePolicy::Never, false));
    assert!(!should_attach_snapshot_artifact(&ActionKind::ListWindows, &CapturePolicy::Always, false));
    let probe = ActionKind::PanelProbe(PanelProbeOptions { uia_max_depth: None, msaa_max_depth: None, capture_format: CaptureFormat::Png });
    assert!(should_attach_snapshot_artifact(&probe, &CapturePolicy::Always, true));
    assert!(should_attach_snapshot_artifact(&probe, &CapturePolicy::OnFailure, false));
    assert!(!should_attach_snapshot_artifact(&probe, &CapturePolicy::OnFailure, true));
    assert_eq!(action_kind_label(&wait), "wait_for");
    assert_eq!(action_kind_label(&ActionKind::GetTree(TreeRequest { raw: false, max_depth: None })), "get_tree");
}

#[test]
fn tree_reads_cut_depth_and_pick_targets() {
    let s = snapshot_with_editor();
    match build_tree_payload(&s, &ActionTarget::Desktop, false, Some(0)).expect("desktop payload") {
        TreePayload::Snapshot(t) => {
            assert_eq!(t.rev, 3);
            assert!(t.windows[0].root.children.is_empty());
        }
        other => panic!("unexpected payload: {other:?}"),
    }
    match build_tree_payload(&s, &ActionTarget::Window(window_target(None, Some("1C"), None)), false, None).expect("window") {
        TreePayload::Window(w) => assert_eq!(w.root.children.len(), 1),
        other => panic!("unexpected payload: {other:?}"),
    }
    let element = ActionTarget::Element(ElementLocator { element_id: Some(ElementId::from_text("elt-edit")), locator: None });
    match build_tree_payload(&s, &element, false, Some(3)).expect("element") {
        TreePayload::Element { window_id, element } => {
            assert_eq!(window_id.as_str(), "wnd-1");
            assert_eq!(element.element_id.as_str(), "elt-edit");
        }
        other => panic!("unexpected payload: {other:?}"),
    }
    let region = ActionTarget::Region(RegionTarget { window_id: None, bounds: Rect::default() });
    assert!(build_tree_payload(&s, &region, false, None).is_none());

    let mut root = vmui::copy::copy_node(&s.windows[0].root);
    truncate_node_depth(&mut root, 1);
    assert_eq!(root.children.len(), 1);
    truncate_node_depth(&mut root, 0);
    assert!(root.children.is_empty());
}

#[test]
fn handshake_orders_hello_subscribe_actions() {
    let hello = ClientMessage::Hello(Hello {
        client_name: "test".to_owned(),
        client_version: "0.1.0".to_owned(),
        requested_profile: profile(),
    });
    let subscribe = ClientMessage::Subscribe(Subscribe { include_initial_snapshot: true, include_diff_stream: true, shallow: false });
    let action = ClientMessage::ActionRequest(ActionRequest {
        action_id: ActionId::from_text("act-1"),
        timeout_ms: 1000,
        target: ActionTarget::Desktop,
        kind: ActionKind::ListWindows,
        capture_policy: CapturePolicy::Never,
    });

    let (phase, step) = session_step(SessionPhase::AwaitingHello, &action);
    assert_eq!(phase, SessionPhase::AwaitingHello);
    assert_eq!(step, SessionStep::Reject { message: "hello must be sent before actions".to_owned() });
    let (phase, step) = session_step(SessionPhase::AwaitingHello, &subscribe);
    assert_eq!(step, SessionStep::Reject { message: "hello must be sent first".to_owned() });
    let (phase, step) = session_step(phase, &hello);
    assert_eq!((phase, step), (SessionPhase::Greeted, SessionStep::OpenSession));
    let (_, step) = session_step(phase, &hello);
    assert_eq!(step, SessionStep::Reject { message: "hello has already been received for this session".to_owned() });
    let (_, step) = session_step(phase, &action);
    assert_eq!(step, SessionStep::Reject { message: "subscribe must be sent before actions".to_owned() });
    let (phase, step) = session_step(phase, &subscribe);
    assert_eq!((phase, step), (SessionPhase::Subscribed, SessionStep::Subscribe));
    let (_, step) = session_step(phase, &subscribe);
    assert_eq!(step, SessionStep::Reject { message: "subscribe has already been received for this session".to_owned() });
    assert_eq!(session_step(phase, &action), (SessionPhase::Subscribed, SessionStep::ExecuteAction));
    assert_eq!(session_step(phase, &ClientMessage::Ping), (SessionPhase::Subscribed, SessionStep::Pong));
    let read = ClientMessage::ReadArtifact(ReadArtifactRequest { artifact_id: vmui::protocol::ArtifactId::from_text("art-1") });
    assert_eq!(session_step(phase, &read).1, SessionStep::RedirectArtifactRead);
}

#[test]
fn refused_backend_diff_becomes_resync_signal() {
    let session_id = SessionId::from_text("sess-1");
    let mut registry = SessionRegistry::default();
    registry.open_session(SessionRuntime::new(session_id.clone(), SessionMode::EnterpriseUi, "test-backend"));
    registry.apply_snapshot(&session_id, sample_snapshot(session_id.clone(), 10)).expect("snapshot");

    let stale = UiDiffBatch { base_rev: 8, new_rev: 9, emitted_at_unix_ms: 5, ops: Vec::new() };
    let signal = apply_backend_diff(&mut registry, &session_id, &stale, 77).expect("resync signal");
    assert_eq!(signal.base_rev, 10);
    assert_eq!(signal.new_rev, 11);
    assert_eq!(signal.emitted_at_unix_ms, 77);
    assert_eq!(
        signal.ops,
        vec![DiffOp::SnapshotResync { reason: "diff base revision mismatch: expected 10, got 8".to_owned() }]
    );

    let fresh = UiDiffBatch { base_rev: 10, new_rev: 11, emitted_at_unix_ms: 6, ops: Vec::new() };
    assert!(apply_backend_diff(&mut registry, &session_id, &fresh, 78).is_none());
    assert_eq!(registry.state(&session_id).expect("state").revision(), 11);

    let rev = apply_refreshed_snapshot(&mut registry, &session_id, sample_snapshot(session_id.clone(), 4)).expect("refresh");
    assert_eq!(rev, 12);
    assert_eq!(registry.state(&session_id).expect("state").revision(), 12);

    let missing = SessionId::from_text("sess-404");
    let signal = apply_backend_diff(&mut registry, &missing, &fresh, 79).expect("resync signal");
    assert_eq!(signal.base_rev, 10);
    assert_eq!(signal.ops, vec![DiffOp::SnapshotResync { reason: "unknown session `sess-404`".to_owned() }]);

    let mut s = sample_snapshot(session_id, 2);
    normalize_snapshot_revision(&mut s, 5);
    assert_eq!(s.rev, 6);
    normalize_snapshot_revision(&mut s, 1);
    assert_eq!(s.rev, 6);
    normalize_snapshot_revision(&mut s, u64::MAX);
    assert_eq!(s.rev, u64::MAX);
}

#[test]
fn diagnostic_capture_targets_are_window_relative_regions() {
    let mut s = snapshot_with_editor();
    s.windows[0].bounds = Rect { left: 100, top: 50, width: 800, height: 600 };
    let window = ActionTarget::Window(window_target(Some("wnd-1"), None, None));
    assert_eq!(
        build_diagnostic_capture_target(&s, &window),
        Some(ActionTarget::Region(RegionTarget {
            window_id: Some(WindowId::from_text("wnd-1")),
            bounds: Rect { left: 0, top: 0, width: 800, height: 600 },
        }))
    );
    s.windows[0].root.children[0].bounds = Rect { left: 116, top: 74, width: 120, height: 28 };
    let element = ActionTarget::Element(ElementLocator { element_id: Some(ElementId::from_text("elt-edit")), locator: None });
    assert_eq!(
        build_diagnostic_capture_target(&s, &element),
        Some(ActionTarget::Region(RegionTarget {
            window_id: Some(WindowId::from_text("wnd-1")),
            bounds: Rect { left: 16, top: 24, width: 120, height: 28 },
        }))
    );
    assert_eq!(build_diagnostic_capture_target(&s, &ActionTarget::Desktop), None);
    let missing = ActionTarget::Window(window_target(Some("nope"), None, None));
    assert_eq!(build_diagnostic_capture_target(&s, &missing), None);
}

#[test]
fn targets_are_enriched_from_the_snapshot() {
    let s = snapshot_with_editor();
    match enrich_action_target(&s, ActionTarget::Window(window_target(None, Some("1C"), None))) {
        ActionTarget::Window(l) => {
            assert_eq!(l.window_id, Some(WindowId::from_text("wnd-1")));
            assert_eq!(l.title.as_deref(), Some("1C"));
            assert_eq!(l.pid, Some(10));
        }
        other => panic!("unexpected target: {other:?}"),
    }
    match enrich_action_target(&s, ActionTarget::Element(ElementLocator { element_id: Some(ElementId::from_text("elt-edit")), locator: None })) {
        ActionTarget::Element(e) => {
            assert_eq!(e.locator.expect("locator").window_fingerprint, "1cv8.exe:1C");
        }
        other => panic!("unexpected target: {other:?}"),
    }
    match enrich_action_target(&s, ActionTarget::Region(RegionTarget { window_id: None, bounds: Rect::default() })) {
        ActionTarget::Region(r) => assert_eq!(r.window_id, Some(WindowId::from_text("wnd-1"))),
        other => panic!("unexpected target: {other:?}"),
    }
}

#[test]
fn waits_complete_after_stable_matches_or_time_out() {
    let mut since = None;
    assert_eq!(wait_step(&mut since, 100, true, 1_100, 200), WaitStep::Wait { remaining_ms: 1_000 });
    assert_eq!(since, Some(100));
    assert_eq!(wait_step(&mut since, 250, true, 1_100, 200), WaitStep::Wait { remaining_ms: 850 });
    assert_eq!(wait_step(&mut since, 300, true, 1_100, 200), WaitStep::Completed);
    let mut since = Some(100);
    assert_eq!(wait_step(&mut since, 400, false, 1_100, 200), WaitStep::Wait { remaining_ms: 700 });
    assert_eq!(since, None);
    assert_eq!(wait_step(&mut since, 1_200, false, 1_100, 0), WaitStep::TimedOut);
    let mut since = None;
    assert_eq!(wait_step(&mut since, 5, true, 1, 0), WaitStep::Completed);
    assert_eq!(wait_outcome_message(&WaitCondition::Gone, true), "condition `Gone` satisfied");
    assert_eq!(
        wait_outcome_message(&WaitCondition::Visible, false),
        "condition `Visible` was not satisfied before timeout"
    );
}

#[test]
fn backend_timeouts_and_fresh_snapshots() {
    let action = ActionRequest {
        action_id: ActionId::from_text("act-timeout"),
        timeout_ms: 10,
        target: ActionTarget::Window(window_target(Some("wnd-1"), None, None)),
        kind: ActionKind::FocusWindow,
        capture_policy: CapturePolicy::OnFailure,
    };
    let result = backend_timeout_result(&action);
    assert_eq!(result.action_id, ActionId::from_text("act-timeout"));
    assert!(!result.ok);
    assert_eq!(result.status, vmui::protocol::ActionStatus::TimedOut);
    assert_eq!(result.message, "action `focus_window` did not complete before timeout");

    let mut store = vmui::state::UiStateStore::default();
    assert!(fresh_snapshot(&store).is_none());
    store.replace_snapshot(sample_snapshot(SessionId::from_text("s"), 4));
    assert_eq!(fresh_snapshot(&store).expect("fresh").rev, 4);
    store.mark_resync_required("gap");
    assert!(fresh_snapshot(&store).is_none());
}

#[test]
fn get_tree_raw_flag_changes_artifact_shape() {
    let s = snapshot_with_editor();
    let target = ActionTarget::Element(ElementLocator { element_id: Some(ElementId::from_text("elt-1")), locator: None });
    match build_tree_payload(&s, &target, false, Some(0)).expect("wrapped payload") {
        TreePayload::Element { window_id, element } => {
            assert_eq!(window_id.as_str(), "wnd-1");
            assert_eq!(element.element_id.as_str(), "elt-1");
            assert!(element.children.is_empty());
        }
        other => panic!("unexpected payload: {other:?}"),
    }
    match build_tree_payload(&s, &target, true, Some(0)).expect("raw payload") {
        TreePayload::RawElement(element) => {
            assert_eq!(element.element_id.as_str(), "elt-1");
            assert!(element.children.is_empty());
        }
        other => panic!("unexpected payload: {other:?}"),
    }
    match build_tree_payload(&s, &ActionTarget::Desktop, true, None).expect("raw snapshot") {
        TreePayload::RawSnapshot(t) => assert_eq!(t.windows.len(), s.windows.len()),
        other => panic!("unexpected payload: {other:?}"),
    }
}

#[test]
fn daemon_results_and_session_opening() {

    let caps = BackendCapabilities {
        supports_live_observer: false,
        supports_uia: true,
        supports_msaa: true,
        supports_ocr_fallback: false,
        supports_artifacts: true,
    };
    assert_eq!(
        backend_capabilities(&caps),
        vec!["grpc-session", "artifact-read", "observer-unavailable", "uia", "msaa", "artifacts"]
    );
    let ack = hello_ack(SessionId::from_text("sess-1"), "0.1.0", "windows", &caps, profile());
    assert_eq!(ack.backend_id, "windows");
    assert_eq!(ack.capabilities.len(), 6);

    let bytes = vec![7u8; 65536 * 2 + 3];
    let chunks = artifact_chunks(&ArtifactId::from_text("art-1"), &bytes);
    assert_eq!(chunks.iter().map(|c| c.data.len()).collect::<Vec<_>>(), vec![65536, 65536, 3]);
    assert!(chunks.iter().all(|c| c.artifact_id.as_str() == "art-1"));
    assert!(artifact_chunks(&ArtifactId::from_text("art-1"), &Vec::new()).is_empty());

    let s = snapshot_with_editor();
    let listed = list_windows_result(ActionId::from_text("act-1"), &s, vec![]);
    assert_eq!(listed.message, "stored 1 windows from revision 3");
    assert_eq!(write_artifact_kind("  "), "snapshot-json");
    assert_eq!(write_artifact_kind("log-text"), "log-text");
    assert_eq!(write_artifact_result(ActionId::from_text("act-2"), "log-text", vec![]).message, "stored artifact `log-text`");

    let request = ActionRequest {
        action_id: ActionId::from_text("act-ocr"),
        timeout_ms: 500,
        target: ActionTarget::Desktop,
        kind: ActionKind::Invoke,
        capture_policy: CapturePolicy::Always,
    };
    let capture = ocr_capture_request(&request);
    assert_eq!(capture.action_id.as_str(), "act-ocr-capture");
    assert_eq!(capture.kind, ActionKind::CaptureRegion(CaptureOptions { format: CaptureFormat::Png }));
    assert_eq!(capture.capture_policy, CapturePolicy::Never);
    let ocr = ocr_fallback_result(ActionId::from_text("act-ocr"), vec![]);
    assert!(!ocr.ok);
    assert_eq!(ocr.status, ActionStatus::Unsupported);

    let snapshot_artifact = ArtifactDescriptor {
        artifact_id: ArtifactId::from_text("art-2"),
        kind: "snapshot-json".to_owned(),
        mime_type: "application/json".to_owned(),
        size_bytes: 2,
    };
    assert!(needs_snapshot_attachment(&ActionKind::Invoke, &CapturePolicy::Always, true, &vec![]));
    assert!(!needs_snapshot_attachment(&ActionKind::Invoke, &CapturePolicy::Always, true, &vec![snapshot_artifact]));
    let missing = panel_probe_target_missing(request);
    assert_eq!(missing.message, "panel_probe target was not found");
    assert_eq!(missing.status, ActionStatus::Failed);
}
