use vmui::pb;
use vmui::protocol::{
    ActionId, ActionKind, ActionRequest, ActionTarget, ArtifactId, CaptureFormat, CapturePolicy,
    ClientMessage, DiagnosticBundleOptions, DiagnosticStepVerdict, ElementId, ElementLocator,
    PanelProbeOptions, RuntimeStatusRequest, SessionProfile, TreeRequest,
};
use vmui::wire::{
    decode_action_request, decode_client_message, encode_action_request, session_profile_to_pb,
};

#[test]
fn action_request_roundtrip_preserves_capture_policy() {
    let request = ActionRequest {
        action_id: ActionId::from_text("act-1"),
        timeout_ms: 1_000,
        target: ActionTarget::Desktop,
        kind: ActionKind::GetTree(TreeRequest {
            raw: true,
            max_depth: Some(2),
        }),
        capture_policy: CapturePolicy::OnFailure,
    };

    let proto = encode_action_request(&request).expect("encode request");
    let decoded = decode_action_request(proto).expect("decode request");

    assert_eq!(decoded, request);
}

#[test]
fn collect_diagnostic_bundle_roundtrip_preserves_baseline_reference() {
    let request = ActionRequest {
        action_id: ActionId::from_text("diag-1"),
        timeout_ms: 5_000,
        target: ActionTarget::Desktop,
        kind: ActionKind::CollectDiagnosticBundle(DiagnosticBundleOptions {
            step_id: Some("step-42".to_owned()),
            step_label: "Failed login check".to_owned(),
            test_verdict: DiagnosticStepVerdict::Failed,
            note: Some("runner=standard-1c".to_owned()),
            baseline_artifact_id: Some(ArtifactId::from_text("art-baseline")),
            max_tree_depth: Some(3),
        }),
        capture_policy: CapturePolicy::Never,
    };

    let proto = encode_action_request(&request).expect("encode request");
    let decoded = decode_action_request(proto).expect("decode request");

    assert_eq!(decoded, request);
}

#[test]
fn panel_probe_roundtrip_preserves_probe_options() {
    let request = ActionRequest {
        action_id: ActionId::from_text("probe-1"),
        timeout_ms: 3_000,
        target: ActionTarget::Element(ElementLocator {
            element_id: Some(ElementId::from_text("elt-probe")),
            locator: None,
        }),
        kind: ActionKind::PanelProbe(PanelProbeOptions {
            uia_max_depth: Some(6),
            msaa_max_depth: Some(3),
            capture_format: CaptureFormat::Jpeg,
        }),
        capture_policy: CapturePolicy::Never,
    };

    let proto = encode_action_request(&request).expect("encode request");
    let decoded = decode_action_request(proto).expect("decode request");

    assert_eq!(decoded, request);
}

#[test]
fn runtime_status_action_roundtrip_preserves_empty_payload() {
    let request = ActionRequest {
        action_id: ActionId::from_text("runtime-1"),
        timeout_ms: 500,
        target: ActionTarget::Desktop,
        kind: ActionKind::GetRuntimeStatus(RuntimeStatusRequest::default()),
        capture_policy: CapturePolicy::Never,
    };

    let proto = encode_action_request(&request).expect("encode request");
    let decoded = decode_action_request(proto).expect("decode request");

    assert_eq!(decoded, request);
}

#[test]
fn client_message_decodes_hello() {
    let wire = pb::ClientMsg {
        payload: Some(pb::ClientPayload::Hello(pb::Hello {
            client_name: "test".to_owned(),
            client_version: "0.1.0".to_owned(),
            requested_profile: Some(session_profile_to_pb(&SessionProfile::onec_enterprise_ui())),
        })),
    };

    let decoded = decode_client_message(wire).expect("decode hello");

    match decoded {
        ClientMessage::Hello(hello) => {
            assert_eq!(hello.client_name, "test");
            assert_eq!(hello.requested_profile, SessionProfile::onec_enterprise_ui());
        }
        other => panic!("unexpected message: {other:?}"),
    }
}
