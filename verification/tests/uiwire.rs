use vmui::json::{parse_json_text, write_json, JsonValue};
use vmui::pb;
use vmui::protocol::{
    ActionId, ActionStatus, BackendKind, DiffOp, ElementId, ElementNode, ElementStates, Locator,
    LocatorSegment, PropertyValue, Rect, ServerMessage, SessionId, SessionProfile, UiDiffBatch,
    UiSnapshot, WindowId, WindowState,
};
use vmui::uiwire::{
    decode_diff, decode_diff_op, decode_node, decode_server_message, decode_snapshot,
    decode_window, encode_diff, encode_diff_op, encode_node, encode_server_message,
    encode_snapshot,
};
use vmui::wire::{session_profile_to_pb, ConvertError};

fn confidence(value: f32) -> u64 {
    (value as f64).to_bits()
}

fn sample_snapshot() -> UiSnapshot {
    UiSnapshot {
        session_id: SessionId::from_text("sess-1"),
        rev: 7,
        profile: SessionProfile::onec_configurator(),
        captured_at_unix_ms: 1_700_000_000_123,
        windows: vec![WindowState {
            window_id: WindowId::from_text("wnd-1"),
            pid: 7,
            process_name: Some("1cv8c.exe".to_owned()),
            title: "Configurator".to_owned(),
            bounds: Rect {
                left: 10,
                top: 20,
                width: 300,
                height: 200,
            },
            backend: BackendKind::Mixed,
            confidence_bits: confidence(0.82),
            root: ElementNode {
                element_id: ElementId::from_text("elt-1"),
                parent_id: None,
                backend: BackendKind::Mixed,
                control_type: "Window".to_owned(),
                class_name: Some("V8TopLevelFrame".to_owned()),
                name: Some("Configurator".to_owned()),
                automation_id: Some("root".to_owned()),
                native_window_handle: Some(42),
                bounds: Rect {
                    left: 10,
                    top: 20,
                    width: 300,
                    height: 200,
                },
                locator: Locator {
                    window_fingerprint: "1cv8c.exe:Configurator".to_owned(),
                    path: vec![],
                },
                properties: vec![(
                    "role".to_owned(),
                    PropertyValue::String("window".to_owned()),
                )],
                states: ElementStates {
                    enabled: true,
                    visible: true,
                    focused: false,
                    selected: false,
                    expanded: false,
                    toggled: false,
                },
                children: vec![],
                confidence_bits: confidence(0.9),
            },
        }],
    }
}

fn child(id: &str) -> ElementNode {
    ElementNode {
        element_id: ElementId::from_text(id),
        parent_id: Some(ElementId::from_text("elt-1")),
        backend: BackendKind::Uia,
        control_type: "Edit".to_owned(),
        class_name: None,
        name: Some("Search".to_owned()),
        automation_id: None,
        native_window_handle: None,
        bounds: Rect {
            left: 1,
            top: 2,
            width: 3,
            height: 4,
        },
        locator: Locator {
            window_fingerprint: "1cv8c.exe:Configurator".to_owned(),
            path: vec![LocatorSegment {
                control_type: "Edit".to_owned(),
                class_name: Some("V8Edit".to_owned()),
                automation_id: None,
                name: None,
                sibling_ordinal: Some(2),
            }],
        },
        properties: vec![
            ("a".to_owned(), PropertyValue::I64(-5)),
            ("b".to_owned(), PropertyValue::F64Bits(1.5f64.to_bits())),
        ],
        states: ElementStates::default(),
        children: vec![],
        confidence_bits: confidence(0.5),
    }
}

#[test]
fn snapshot_roundtrip_preserves_foundation_fields() {
    let snapshot = sample_snapshot();
    let proto = encode_snapshot(&snapshot);
    let decoded = decode_snapshot(proto).expect("decode snapshot");

    assert_eq!(decoded, snapshot);
}

#[test]
fn server_message_wraps_snapshot_payload() {
    let message = ServerMessage::InitialSnapshot(sample_snapshot());
    let wire = encode_server_message(&message);

    match wire.payload.expect("payload") {
        pb::ServerPayload::InitialSnapshot(snapshot) => {
            assert_eq!(snapshot.rev, 7);
            assert_eq!(
                snapshot.profile,
                Some(session_profile_to_pb(&SessionProfile::onec_configurator()))
            );
        }
        other => panic!("unexpected payload: {other:?}"),
    }
}

#[test]
fn server_message_decodes_action_result() {
    let wire = pb::ServerMsg {
        payload: Some(pb::ServerPayload::ActionResult(pb::ActionResult {
            action_id: "act-1".to_owned(),
            ok: false,
            status: "timed_out".to_owned(),
            message: "expired".to_owned(),
            artifacts: vec![pb::ArtifactReady {
                artifact_id: "art-1".to_owned(),
                kind: "runtime-status-json".to_owned(),
                mime_type: "application/json".to_owned(),
                size_bytes: 42,
            }],
        })),
    };

    let decoded = decode_server_message(wire).expect("decode server message");

    match decoded {
        ServerMessage::ActionResult(result) => {
            assert_eq!(result.action_id, ActionId::from_text("act-1"));
            assert!(!result.ok);
            assert_eq!(result.status, ActionStatus::TimedOut);
            assert_eq!(result.artifacts.len(), 1);
            assert_eq!(result.artifacts[0].kind, "runtime-status-json");
        }
        other => panic!("unexpected message: {other:?}"),
    }
}

#[test]
fn node_wire_form_uses_empty_and_zero_for_absent_fields() {
    let node = child("elt-2");
    let wire = encode_node(&node);
    assert_eq!(wire.parent_id, "elt-1");
    assert_eq!(wire.class_name, "");
    assert_eq!(wire.automation_id, "");
    assert_eq!(wire.native_window_handle, 0);
    assert_eq!(wire.backend, "uia");
    assert_eq!(wire.confidence_bits, 0.5f32.to_bits());
    let path = &wire.locator.as_ref().expect("locator").path;
    assert_eq!(path[0].sibling_ordinal, 2);
    assert_eq!(path[0].automation_id, "");
    assert_eq!(decode_node(&wire).expect("decode node"), node);
}

#[test]
fn decoded_properties_are_sorted_and_the_last_duplicate_wins() {
    let mut wire = encode_node(&child("elt-2"));
    wire.properties = vec![
        pb::Property {
            key: "z".to_owned(),
            value: Some(PropertyValue::Bool(true)),
        },
        pb::Property {
            key: "a".to_owned(),
            value: Some(PropertyValue::Null),
        },
        pb::Property {
            key: "z".to_owned(),
            value: Some(PropertyValue::I64(3)),
        },
    ];
    let node = decode_node(&wire).expect("decode node");
    assert_eq!(
        node.properties,
        vec![
            ("a".to_owned(), PropertyValue::Null),
            ("z".to_owned(), PropertyValue::I64(3)),
        ]
    );
}

#[test]
fn node_decoding_reports_the_first_missing_piece() {
    let mut wire = encode_node(&child("elt-2"));
    wire.backend = "java".to_owned();
    wire.bounds = None;
    assert_eq!(
        decode_node(&wire),
        Err(ConvertError::MissingField("backend".to_owned()))
    );
    wire.backend = "msaa".to_owned();
    assert_eq!(
        decode_node(&wire),
        Err(ConvertError::MissingField("element.bounds".to_owned()))
    );
    let mut wire = encode_node(&child("elt-2"));
    wire.locator = None;
    assert_eq!(
        decode_node(&wire),
        Err(ConvertError::MissingField("element.locator".to_owned()))
    );
    let mut wire = encode_node(&child("elt-2"));
    wire.properties[1].value = None;
    assert_eq!(
        decode_node(&wire),
        Err(ConvertError::InvalidJson {
            field: "property.value_json".to_owned()
        })
    );
    let mut parent = encode_node(&child("elt-1"));
    let mut broken = encode_node(&child("elt-3"));
    broken.locator = None;
    parent.children = vec![encode_node(&child("elt-2")), broken];
    assert_eq!(
        decode_node(&parent),
        Err(ConvertError::MissingField("element.locator".to_owned()))
    );
}

#[test]
fn window_decoding_requires_bounds_backend_and_root() {
    let snapshot = sample_snapshot();
    let wire = encode_snapshot(&snapshot);
    let mut window = wire.windows.into_iter().next().expect("window");
    window.root = None;
    assert_eq!(
        decode_window(&window),
        Err(ConvertError::MissingField("window.root".to_owned()))
    );
    window.bounds = None;
    assert_eq!(
        decode_window(&window),
        Err(ConvertError::MissingField("window.bounds".to_owned()))
    );
}

#[test]
fn diff_ops_roundtrip_through_their_wire_form() {
    let ops = vec![
        DiffOp::WindowRemoved {
            window_id: WindowId::from_text("wnd-1"),
        },
        DiffOp::NodeAdded {
            parent_id: ElementId::from_text("elt-1"),
            node: child("elt-2"),
        },
        DiffOp::NodeRemoved {
            element_id: ElementId::from_text("elt-2"),
        },
        DiffOp::NodeReplaced {
            element_id: ElementId::from_text("elt-2"),
            node: child("elt-2"),
        },
        DiffOp::PropertyChanged {
            element_id: ElementId::from_text("elt-2"),
            field: "name".to_owned(),
            value: PropertyValue::StringList(vec!["x".to_owned()]),
        },
        DiffOp::FocusChanged {
            window_id: WindowId::from_text("wnd-1"),
            element_id: None,
        },
        DiffOp::SnapshotResync {
            reason: "gap".to_owned(),
        },
    ];
    let batch = UiDiffBatch {
        base_rev: 3,
        new_rev: 4,
        emitted_at_unix_ms: 1_700_000_001_000,
        ops,
    };
    let wire = encode_diff(&batch);
    assert_eq!(wire.ops[0].op, "window_removed");
    assert_eq!(wire.ops[5].op, "focus_changed");
    assert_eq!(wire.ops[5].element_id, "");
    assert_eq!(decode_diff(&wire).expect("decode diff"), batch);
}

#[test]
fn diff_op_decoding_rejects_unknown_and_incomplete_operations() {
    let mut op = encode_diff_op(&DiffOp::SnapshotResync {
        reason: "gap".to_owned(),
    });
    op.op = "node_moved".to_owned();
    assert_eq!(
        decode_diff_op(&op),
        Err(ConvertError::UnsupportedDiffOp("node_moved".to_owned()))
    );
    op.op = "node_added".to_owned();
    assert_eq!(
        decode_diff_op(&op),
        Err(ConvertError::MissingField("diff.node".to_owned()))
    );
    op.op = "window_added".to_owned();
    assert_eq!(
        decode_diff_op(&op),
        Err(ConvertError::MissingField("diff.window".to_owned()))
    );
    op.op = "property_changed".to_owned();
    assert_eq!(
        decode_diff_op(&op),
        Err(ConvertError::InvalidJson {
            field: "diff.value_json".to_owned()
        })
    );
}

#[test]
fn out_of_range_capture_times_are_rejected() {
    let mut snapshot = sample_snapshot();
    snapshot.captured_at_unix_ms = i64::MAX;
    let wire = encode_snapshot(&snapshot);
    assert_eq!(
        decode_snapshot(wire),
        Err(ConvertError::InvalidTimestamp(i64::MAX))
    );
    let wire = pb::ServerMsg { payload: None };
    assert_eq!(
        decode_server_message(wire).err(),
        Some(ConvertError::MissingPayload)
    );
}

#[test]
fn capture_times_are_accepted_exactly_within_the_clock_range() {
    for (ms, ok) in [
        (8_210_266_876_799_999i64, true),
        (8_210_266_876_800_000i64, false),
        (-8_334_601_228_800_000i64, true),
        (-8_334_601_228_800_001i64, false),
    ] {
        let mut snapshot = sample_snapshot();
        snapshot.captured_at_unix_ms = ms;
        let decoded = decode_snapshot(encode_snapshot(&snapshot));
        if ok {
            assert_eq!(decoded.expect("in range").captured_at_unix_ms, ms);
        } else {
            assert_eq!(decoded, Err(ConvertError::InvalidTimestamp(ms)));
        }
    }
}

#[test]
fn an_empty_optional_text_does_not_survive_the_wire() {
    let mut node = child("elt-2");
    node.class_name = Some(String::new());
    node.native_window_handle = Some(0);
    let decoded = decode_node(&encode_node(&node)).expect("decode node");
    assert_eq!(decoded.class_name, None);
    assert_eq!(decoded.native_window_handle, None);
    assert_ne!(decoded, node);
}

#[test]
fn json_text_reads_back_as_the_value_written() {
    let value = JsonValue::Obj(vec![
        ("kind".to_owned(), JsonValue::Str("element".to_owned())),
        (
            "text".to_owned(),
            JsonValue::Str("tab\t \"quoted\" \\ Поиск \u{1}".to_owned()),
        ),
        (
            "path".to_owned(),
            JsonValue::Arr(vec![
                JsonValue::Num("-12".to_owned()),
                JsonValue::Null,
                JsonValue::Bool(true),
                JsonValue::Obj(vec![]),
            ]),
        ),
    ]);
    let mut text = String::new();
    write_json(&mut text, &value);
    assert_eq!(
        text,
        "{\"kind\":\"element\",\"text\":\"tab\\t \\\"quoted\\\" \\\\ Поиск \\u0001\",\"path\":[-12,null,true,{}]}"
    );
    assert_eq!(parse_json_text(&text), Some(value));
}
