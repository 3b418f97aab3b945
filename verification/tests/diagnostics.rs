use vmui::agent::TreePayload;
use vmui::diagnostics::{
    build_baseline_comparison, build_diagnostic_bundle, collect_fallback_surfaces,
    diagnostic_artifact_kinds, diagnostic_bundle_result, double_bits_less, BaselineComparison,
    BaselineRead, LOW_CONFIDENCE_BITS,
};
use vmui::protocol::{
    ActionId, ActionStatus, ArtifactDescriptor, ActionTarget, ArtifactId, BackendKind, DiagnosticBundleOptions, DiagnosticStepVerdict,
    DomainProfile, ElementId, ElementLocator, ElementNode, ElementStates, Locator,
    ObservationScope, PropertyValue, Rect, RegionTarget, SessionId, SessionMode, SessionProfile,
    UiSnapshot, WindowId, WindowState,
};

fn conf(v: f32) -> u64 {
    (v as f64).to_bits()
}

fn node(id: &str, backend: BackendKind, confidence: f32, children: Vec<ElementNode>) -> ElementNode {
    ElementNode {
        element_id: ElementId::from_text(id),
        parent_id: None,
        backend,
        control_type: "Pane".to_owned(),
        class_name: None,
        name: None,
        automation_id: None,
        native_window_handle: None,
        bounds: Rect {
            left: 0,
            top: 0,
            width: 10,
            height: 10,
        },
        locator: Locator {
            window_fingerprint: "fp".to_owned(),
            path: vec![],
        },
        properties: vec![],
        states: ElementStates::default(),
        children,
        confidence_bits: conf(confidence),
    }
}

fn snapshot() -> UiSnapshot {
    let mut onec = node("elt-onec", BackendKind::Uia, 0.9, vec![]);
    onec.properties = vec![
        (
            "onec_fallback_reason".to_owned(),
            PropertyValue::String("weak_semantic_metadata".to_owned()),
        ),
        (
            "onec_profile".to_owned(),
            PropertyValue::String("ordinary_form".to_owned()),
        ),
    ];
    let root = node(
        "elt-root",
        BackendKind::Uia,
        1.0,
        vec![
            node("elt-msaa", BackendKind::Msaa, 0.45, vec![]),
            node("elt-low", BackendKind::Uia, 0.5, vec![]),
            node("elt-ok", BackendKind::Uia, 0.6, vec![]),
            onec,
        ],
    );
    UiSnapshot {
        session_id: SessionId::from_text("sess-1"),
        rev: 3,
        profile: SessionProfile {
            observation_scope: ObservationScope::Desktop,
            domain_profile: DomainProfile::OnecEnterpriseUi,
            target_filter: None,
        },
        captured_at_unix_ms: 1_700_000_000_000,
        windows: vec![WindowState {
            window_id: WindowId::from_text("wnd-1"),
            pid: 1,
            process_name: None,
            title: "1C".to_owned(),
            bounds: Rect {
                left: 0,
                top: 0,
                width: 100,
                height: 100,
            },
            backend: BackendKind::Uia,
            confidence_bits: conf(1.0),
            root,
        }],
    }
}

#[test]
fn double_order_on_bits_follows_ieee() {
    assert!(double_bits_less(0.5f64.to_bits(), 0.6f64.to_bits()));
    assert!(!double_bits_less(0.6f64.to_bits(), 0.5f64.to_bits()));
    assert!(double_bits_less((-2.0f64).to_bits(), (-1.0f64).to_bits()));
    assert!(double_bits_less((-1.0f64).to_bits(), 0.0f64.to_bits()));
    assert!(!double_bits_less((-0.0f64).to_bits(), 0.0f64.to_bits()));
    assert!(!double_bits_less(f64::NAN.to_bits(), 1.0f64.to_bits()));
    assert!(!double_bits_less(1.0f64.to_bits(), f64::NAN.to_bits()));
    assert!(double_bits_less(f64::NEG_INFINITY.to_bits(), f64::MIN.to_bits()));
    assert_eq!(LOW_CONFIDENCE_BITS, (0.6f32 as f64).to_bits());
}

#[test]
fn fallback_surfaces_are_fallback_backends_low_confidence_or_onec_fallbacks() {
    let s = snapshot();
    let surfaces = collect_fallback_surfaces(&s, &ActionTarget::Desktop);
    let ids: Vec<&str> = surfaces.iter().map(|x| x.element_id.as_str()).collect();
    assert_eq!(ids, vec!["elt-msaa", "elt-low", "elt-onec"]);
    assert_eq!(surfaces[0].backend, BackendKind::Msaa);
    assert_eq!(surfaces[0].window_id, WindowId::from_text("wnd-1"));
    assert_eq!(surfaces[2].onec_profile.as_deref(), Some("ordinary_form"));
    assert_eq!(
        surfaces[2].onec_fallback_reason.as_deref(),
        Some("weak_semantic_metadata")
    );
    let element = ActionTarget::Element(ElementLocator {
        element_id: Some(ElementId::from_text("elt-low")),
        locator: None,
    });
    let only = collect_fallback_surfaces(&s, &element);
    assert_eq!(only.len(), 1);
    assert_eq!(only[0].element_id, ElementId::from_text("elt-low"));
    let missing = ActionTarget::Region(RegionTarget {
        window_id: Some(WindowId::from_text("wnd-9")),
        bounds: Rect::default(),
    });
    assert!(collect_fallback_surfaces(&s, &missing).is_empty());
}

#[test]
fn bundles_keep_the_runner_verdict_and_list_their_artifacts() {
    let s = snapshot();
    let options = DiagnosticBundleOptions {
        step_id: Some("step-7".to_owned()),
        step_label: "Открытие формы".to_owned(),
        test_verdict: DiagnosticStepVerdict::Failed,
        note: Some("runner=standard-1c".to_owned()),
        baseline_artifact_id: Some(ArtifactId::from_text("art-base")),
        max_tree_depth: Some(2),
    };
    let bundle = build_diagnostic_bundle(
        &SessionId::from_text("sess-1"),
        SessionMode::EnterpriseUi,
        &options,
        &ActionTarget::Desktop,
        &s,
        vec![],
        Some(BaselineRead::Missing("artifact art-base was not found".to_owned())),
    );
    assert_eq!(bundle.context.test_verdict, DiagnosticStepVerdict::Failed);
    assert_eq!(bundle.context.test_verdict_source, "external_runner");
    assert_eq!(bundle.context.daemon_diagnostic_status, "completed");
    assert_eq!(bundle.context.step_label, "Открытие формы");
    assert_eq!(
        bundle.context.baseline_artifact_id,
        Some(ArtifactId::from_text("art-base"))
    );
    assert_eq!(bundle.active_windows, s.windows);
    assert_eq!(bundle.target, ActionTarget::Desktop);
    assert_eq!(bundle.fallback_surfaces.len(), 3);
    assert!(matches!(bundle.target_tree, Some(TreePayload::Snapshot(_))));
    match &bundle.baseline_comparison {
        Some(BaselineComparison::MissingArtifact { baseline_artifact_id, message }) => {
            assert_eq!(baseline_artifact_id.as_str(), "art-base");
            assert_eq!(message, "artifact art-base was not found");
        }
        other => panic!("unexpected comparison: {other:?}"),
    }
    assert_eq!(
        diagnostic_artifact_kinds(&bundle),
        vec!["diagnostic-json", "snapshot-json", "diff-json", "snapshot-json", "baseline-comparison-json"]
    );
}

#[test]
fn bundles_compare_with_a_named_baseline_only() {
    let s = snapshot();
    let mut options = DiagnosticBundleOptions {
        step_id: None,
        step_label: "step".to_owned(),
        test_verdict: DiagnosticStepVerdict::Failed,
        note: None,
        baseline_artifact_id: None,
        max_tree_depth: None,
    };
    let region = ActionTarget::Region(RegionTarget { window_id: None, bounds: Rect::default() });
    let plain = build_diagnostic_bundle(&SessionId::from_text("sess-1"), SessionMode::EnterpriseUi, &options, &region, &s, vec![], None);
    assert!(plain.baseline_comparison.is_none());
    assert!(plain.target_tree.is_none());
    assert_eq!(diagnostic_artifact_kinds(&plain), vec!["diagnostic-json", "snapshot-json", "diff-json"]);

    options.baseline_artifact_id = Some(ArtifactId::from_text("art-base"));
    let compared = build_diagnostic_bundle(
        &SessionId::from_text("sess-1"),
        SessionMode::EnterpriseUi,
        &options,
        &region,
        &s,
        vec![],
        Some(BaselineRead::Snapshot(snapshot())),
    );
    match &compared.baseline_comparison {
        Some(BaselineComparison::Compared { baseline_artifact_id, comparison }) => {
            assert_eq!(baseline_artifact_id.as_str(), "art-base");
            assert_eq!(comparison.expected.len(), s.windows.len());
            assert_eq!(comparison.actual.len(), s.windows.len());
            assert_eq!(comparison.matched.len() + comparison.removed.len(), s.windows.len());
            assert_eq!(comparison.matched.len() + comparison.added.len(), s.windows.len());
        }
        other => panic!("unexpected comparison: {other:?}"),
    }
    let invalid = build_baseline_comparison(&s, &options.baseline_artifact_id, Some(BaselineRead::Invalid("no snapshot".to_owned())));
    assert!(matches!(invalid, Some(BaselineComparison::InvalidArtifact { .. })));

    let stored = vec![ArtifactDescriptor {
        artifact_id: ArtifactId::from_text("art-1"),
        kind: "diagnostic-json".to_owned(),
        mime_type: "application/json".to_owned(),
        size_bytes: 10,
    }];
    let result = diagnostic_bundle_result(ActionId::from_text("act-1"), &options, stored.clone());
    assert!(result.ok);
    assert_eq!(result.status, ActionStatus::Completed);
    assert_eq!(result.message, "collected diagnostic bundle for step `step` with 1 artifacts");
    assert_eq!(result.artifacts, stored);
}
