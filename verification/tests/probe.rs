use vmui::platform::BackendArtifact;
use vmui::probe::{
    capture_layer, hit_test_points, hit_test_verdict, probe_max_depth, push_probe_layer, rect_contains_point,
    rects_intersect, PanelProbeLayer, PanelProbeLayerKind, ProbeLayerStatus,
};
use vmui::protocol::Rect;

fn rect(left: i32, top: i32, width: i32, height: i32) -> Rect {
    Rect { left, top, width, height }
}

#[test]
fn hit_test_samples_the_centre_and_inset_corners() {
    let points = hit_test_points(rect(100, 200, 100, 50));
    assert_eq!(
        points,
        vec![
            ("center", 150, 225),
            ("top_left", 120, 210),
            ("top_right", 179, 210),
            ("bottom_left", 120, 239),
            ("bottom_right", 179, 239),
        ]
    );
}

#[test]
fn small_surfaces_keep_samples_inside() {
    let points = hit_test_points(rect(0, 0, 4, 4));
    assert_eq!(points[1], ("top_left", 3, 3));
    assert_eq!(points[4], ("bottom_right", 0, 0));
}

#[test]
fn rectangles_meet_only_when_they_overlap() {
    let a = rect(0, 0, 10, 10);
    assert!(rects_intersect(a, rect(5, 5, 10, 10)));
    assert!(!rects_intersect(a, rect(10, 0, 5, 5)));
    assert!(!rects_intersect(a, rect(0, 10, 5, 5)));
    assert!(rect_contains_point(a, 0, 0));
    assert!(rect_contains_point(a, 9, 9));
    assert!(!rect_contains_point(a, 10, 5));
}

#[test]
fn hit_test_verdict_needs_semantics() {
    let (status, message) = hit_test_verdict(2);
    assert_eq!(status, ProbeLayerStatus::Observed);
    assert_eq!(message.as_deref(), Some("captured point hit-test evidence for the target surface"));
    let (status, _) = hit_test_verdict(0);
    assert_eq!(status, ProbeLayerStatus::Insufficient);
}

#[test]
fn probe_layers_take_their_evidence_mime_type() {
    let mut layers = Vec::new();
    let mut artifacts = Vec::new();
    let layer = PanelProbeLayer {
        layer: PanelProbeLayerKind::HitTest,
        status: ProbeLayerStatus::Observed,
        artifact_kind: Some("panel-probe-hit-test-json".to_owned()),
        artifact_id: None,
        mime_type: None,
        message: None,
    };
    let evidence = BackendArtifact {
        kind: "panel-probe-hit-test-json".to_owned(),
        mime_type: "application/json".to_owned(),
        bytes: vec![b'{', b'}'],
    };
    push_probe_layer(&mut layers, &mut artifacts, layer.clone(), Some(evidence.clone()));
    push_probe_layer(&mut layers, &mut artifacts, layer.clone(), None);
    assert_eq!(layers[0].mime_type.as_deref(), Some("application/json"));
    assert_eq!(layers[1].mime_type, None);
    assert_eq!(artifacts, vec![evidence.clone()]);
    let capture = capture_layer(&evidence);
    assert_eq!(capture.layer, PanelProbeLayerKind::Capture);
    assert_eq!(capture.message.as_deref(), Some("captured target surface"));
    assert_eq!(probe_max_depth(None, 6), 6);
    assert_eq!(probe_max_depth(Some(0), 6), 1);
    assert_eq!(probe_max_depth(Some(9), 3), 9);
}
