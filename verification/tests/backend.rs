use vmui::materialize::{
    build_child_locator_segments, build_msaa_window_fingerprint, build_window_fingerprint,
    control_type_name, locator_signature_for_raw, materialize_root, msaa_window,
    preferred_window_title, uia_window, RawObservedNode, WindowMetadata, MSAA_CONFIDENCE_BITS,
    UIA_CONFIDENCE_BITS,
};
use vmui::observe::{element_id_from_locator, window_id_from_fingerprint};
use vmui::protocol::{
    ActionTarget, BackendKind, ElementLocator, ElementStates, LocatorSegment,
    PropertyValue, Rect, RegionTarget, WindowId, WindowLocator,
};
use vmui::targets::{
    click_point, element_matches_segment, resolve_action_node_from_target,
    resolve_action_window_from_target, resolve_capture_bounds,
};

fn raw(control_type: &str, class_name: Option<&str>, name: Option<&str>, bounds: Rect) -> RawObservedNode {
    RawObservedNode {
        backend: BackendKind::Uia,
        control_type: control_type.to_owned(),
        class_name: class_name.map(str::to_owned),
        name: name.map(str::to_owned),
        automation_id: None,
        native_window_handle: None,
        bounds,
        properties: vec![],
        states: ElementStates::default(),
        children: vec![],
        confidence_bits: 1.0f64.to_bits(),
    }
}

fn rect(left: i32, top: i32, width: i32, height: i32) -> Rect {
    Rect {
        left,
        top,
        width,
        height,
    }
}

fn metadata() -> WindowMetadata {
    WindowMetadata {
        hwnd: 0x10,
        pid: 7,
        process_name: Some("1cv8.exe".to_owned()),
        title: "  ".to_owned(),
        class_name: Some("V8TopLevelFrame".to_owned()),
        bounds: rect(100, 50, 800, 600),
    }
}

fn sample_root() -> RawObservedNode {
    let mut root = raw("Window", Some("V8TopLevelFrame"), Some("Designer"), rect(100, 50, 800, 600));
    root.children = vec![
        raw("Edit", Some(" V8Edit "), Some("Search"), rect(110, 60, 100, 20)),
        raw("Edit", Some("v8edit"), Some("search"), rect(110, 90, 100, 20)),
        raw("Button", None, Some("OK"), rect(300, 400, 80, 30)),
    ];
    root
}

#[test]
fn look_alike_siblings_get_ordinals() {
    let root = sample_root();
    let segments = build_child_locator_segments(&root.children);
    assert_eq!(segments.len(), 3);
    assert_eq!(segments[0].sibling_ordinal, Some(0));
    assert_eq!(segments[1].sibling_ordinal, Some(1));
    assert_eq!(segments[2].sibling_ordinal, None);
    assert_eq!(segments[0].class_name.as_deref(), Some(" V8Edit "));
    assert_eq!(
        locator_signature_for_raw(&root.children[0]),
        "type=edit|class=v8edit|auto=-|name=search"
    );
}

#[test]
fn materialized_trees_take_ids_from_their_locators() {
    let root = sample_root();
    let segments = build_child_locator_segments(&root.children);
    let node = materialize_root(root, "fp");
    assert_eq!(node.element_id, element_id_from_locator("fp", &vec![]));
    assert_eq!(node.parent_id, None);
    assert_eq!(node.locator.window_fingerprint, "fp");
    assert!(node.locator.path.is_empty());
    assert_eq!(node.children.len(), 3);
    for (child, segment) in node.children.iter().zip(segments.iter()) {
        assert_eq!(child.parent_id, Some(node.element_id.clone()));
        assert_eq!(child.locator.path, vec![segment.clone()]);
        assert_eq!(
            child.element_id,
            element_id_from_locator("fp", &vec![segment.clone()])
        );
    }
    assert_ne!(node.children[0].element_id, node.children[1].element_id);
}

#[test]
fn window_titles_fall_back_in_order() {
    assert_eq!(preferred_window_title(" Main ", Some("x"), None, 1), "Main");
    assert_eq!(preferred_window_title("  ", Some(" Name "), Some("Class"), 1), "Name");
    assert_eq!(preferred_window_title("", Some(" "), Some("Class"), 1), "Class");
    assert_eq!(preferred_window_title("", None, None, 0x10), "Window 0000000000000010");
}

#[test]
fn fingerprints_name_the_process_handle_and_normalized_texts() {
    let root = sample_root();
    assert_eq!(
        build_window_fingerprint(&metadata(), &root, "1C:Enterprise "),
        "pid=7:hwnd=0000000000000010:class=v8toplevelframe:title=1c:enterprise:root_name=designer"
    );
    assert_eq!(
        build_msaa_window_fingerprint(&metadata(), "msaa_role_9", "Main"),
        "pid=7:hwnd=0000000000000010:msaa_role=msaa_role_9:title=main"
    );
}

#[test]
fn uia_reads_become_windows_with_full_confidence() {
    let window = uia_window(&metadata(), sample_root());
    assert_eq!(window.title, "Designer");
    let fp = "pid=7:hwnd=0000000000000010:class=v8toplevelframe:title=designer:root_name=designer";
    assert_eq!(window.window_id, window_id_from_fingerprint(fp));
    assert_eq!(window.root.locator.window_fingerprint, fp);
    assert_eq!(window.backend, BackendKind::Uia);
    assert_eq!(window.confidence_bits, UIA_CONFIDENCE_BITS);
    assert_eq!(window.confidence_bits, (1.0f32 as f64).to_bits());
    assert_eq!(window.bounds, rect(100, 50, 800, 600));
}

#[test]
fn msaa_reads_become_childless_windows() {
    let window = msaa_window(&metadata(), None, Some(9), None);
    assert_eq!(window.title, "msaa_role_9");
    assert_eq!(window.backend, BackendKind::Msaa);
    assert_eq!(window.confidence_bits, MSAA_CONFIDENCE_BITS);
    assert_eq!(MSAA_CONFIDENCE_BITS, (0.45f32 as f64).to_bits());
    assert_eq!(window.root.control_type, "msaa_role_9");
    assert_eq!(window.root.native_window_handle, Some(0x10));
    assert_eq!(
        window.root.properties,
        vec![
            (
                "msaa_role".to_owned(),
                PropertyValue::String("msaa_role_9".to_owned())
            ),
            ("msaa_state".to_owned(), PropertyValue::I64(0)),
        ]
    );
    assert!(window.root.children.is_empty());
    let unknown = msaa_window(&metadata(), Some("Form".to_owned()), None, Some(64));
    assert_eq!(unknown.title, "Form");
    assert_eq!(unknown.root.control_type, "MsaaAccessible");
    assert_eq!(unknown.root.properties[1].1, PropertyValue::I64(64));
}

#[test]
fn control_types_are_named() {
    assert_eq!(control_type_name(50000), "Button");
    assert_eq!(control_type_name(50032), "Window");
    assert_eq!(control_type_name(50033), "Pane");
    assert_eq!(control_type_name(12345), "ControlType(12345)");
    assert_eq!(control_type_name(-1), "ControlType(-1)");
}

#[test]
fn targets_resolve_among_the_windows_read() {
    let window = uia_window(&metadata(), sample_root());
    let window_id = window.window_id.clone();
    let edit_id = window.root.children[1].element_id.clone();
    let windows = vec![window];

    assert_eq!(resolve_action_window_from_target(&windows, &ActionTarget::Desktop), Some(0));
    let element = ActionTarget::Element(ElementLocator {
        element_id: Some(edit_id),
        locator: None,
    });
    assert_eq!(resolve_action_window_from_target(&windows, &element), Some(0));
    assert_eq!(resolve_action_node_from_target(&windows, &element), Some((0, vec![1])));
    assert_eq!(resolve_capture_bounds(&windows, &element), Some(rect(110, 90, 100, 20)));

    let by_title = ActionTarget::Window(WindowLocator {
        window_id: None,
        title: Some("Designer".to_owned()),
        pid: None,
        process_name: None,
        class_name: None,
    });
    assert_eq!(resolve_capture_bounds(&windows, &by_title), Some(rect(100, 50, 800, 600)));
    assert_eq!(resolve_action_node_from_target(&windows, &by_title), Some((0, vec![])));

    let region = ActionTarget::Region(RegionTarget {
        window_id: Some(window_id),
        bounds: rect(10, 20, 30, 40),
    });
    assert_eq!(resolve_capture_bounds(&windows, &region), Some(rect(110, 70, 30, 40)));
    let missing = ActionTarget::Region(RegionTarget {
        window_id: Some(WindowId::from_text("wnd-missing")),
        bounds: rect(10, 20, 30, 40),
    });
    assert_eq!(resolve_capture_bounds(&windows, &missing), None);
    assert_eq!(resolve_action_window_from_target(&windows, &missing), None);
    assert_eq!(resolve_capture_bounds(&windows, &ActionTarget::Desktop), None);
}

#[test]
fn coordinate_clicks_land_on_the_centre() {
    assert_eq!(click_point(rect(10, 20, 101, 50)), Ok((60, 45)));
    assert_eq!(
        click_point(rect(10, 20, 0, 50)),
        Err("target bounds are invalid for coordinate fallback".to_owned())
    );
}

#[test]
fn live_elements_fit_locator_steps_by_the_texts_given() {
    let segment = LocatorSegment {
        control_type: "Edit".to_owned(),
        class_name: Some("V8Edit".to_owned()),
        automation_id: None,
        name: None,
        sibling_ordinal: Some(1),
    };
    let edit = "Edit".to_owned();
    assert!(element_matches_segment(&edit, &Some("V8Edit".to_owned()), &Some("a".to_owned()), &None, &segment));
    assert!(!element_matches_segment(&edit, &None, &None, &None, &segment));
    assert!(!element_matches_segment(&"Pane".to_owned(), &Some("V8Edit".to_owned()), &None, &None, &segment));
}
