use vmui::observe::{
    apply_desktop_refresh, apply_window_refresh, diff_snapshots, element_id_from_locator,
    element_match_score, focused_element_id, locator_path_key, locator_segment_key,
    node_equal, normalize_for_key, normalize_optional_for_key, same_window_shell,
    snapshot_from_windows, stabilize_window, stabilize_windows, window_id_from_fingerprint,
    window_match_score,
};
use vmui::platform::BackendSessionParams;
use vmui::protocol::{
    BackendKind, DiffOp, DomainProfile, ElementNode, ElementStates, Locator, LocatorSegment,
    ObservationScope, PropertyValue, Rect, SessionId, SessionProfile, UiSnapshot, WindowId,
    WindowState,
};

fn conf(v: f32) -> u64 {
    (v as f64).to_bits()
}

fn states(focused: bool) -> ElementStates {
    ElementStates { enabled: true, visible: true, focused, selected: false, expanded: false, toggled: false }
}

fn sample_window(hwnd: usize, title: &str, backend: BackendKind, confidence: f32, root_focused: bool, child_focused: bool) -> WindowState {
    let window_fingerprint = format!(
        "pid={}:hwnd={:016x}:class=v8toplevelframe:title={}",
        hwnd as u32,
        hwnd,
        title.to_lowercase()
    );
    let root_id = element_id_from_locator(&window_fingerprint, &Vec::new());
    let child_locator = LocatorSegment {
        control_type: "Edit".to_owned(),
        class_name: Some("V8Edit".to_owned()),
        automation_id: None,
        name: Some("Search".to_owned()),
        sibling_ordinal: None,
    };
    let child_id = element_id_from_locator(&window_fingerprint, &vec![child_locator.clone()]);
    WindowState {
        window_id: window_id_from_fingerprint(&window_fingerprint),
        pid: hwnd as u32,
        process_name: Some("1cv8.exe".to_owned()),
        title: title.to_owned(),
        bounds: Rect { left: 0, top: 0, width: 100, height: 50 },
        backend,
        confidence_bits: conf(confidence),
        root: ElementNode {
            element_id: root_id.clone(),
            parent_id: None,
            backend,
            control_type: "Window".to_owned(),
            class_name: Some("V8TopLevelFrame".to_owned()),
            name: Some(title.to_owned()),
            automation_id: None,
            native_window_handle: Some(hwnd as u64),
            bounds: Rect { left: 0, top: 0, width: 100, height: 50 },
            locator: Locator { window_fingerprint: window_fingerprint.clone(), path: Vec::new() },
            properties: Vec::new(),
            states: states(root_focused),
            children: vec![ElementNode {
                element_id: child_id,
                parent_id: Some(root_id),
                backend,
                control_type: "Edit".to_owned(),
                class_name: Some("V8Edit".to_owned()),
                name: Some("Search".to_owned()),
                automation_id: None,
                native_window_handle: None,
                bounds: Rect { left: 10, top: 10, width: 80, height: 20 },
                locator: Locator { window_fingerprint, path: vec![child_locator] },
                properties: Vec::new(),
                states: states(child_focused),
                children: Vec::new(),
                confidence_bits: conf(confidence),
            }],
            confidence_bits: conf(confidence),
        },
    }
}

fn sibling_button(hwnd: usize, name: &str) -> ElementNode {
    let window_fingerprint = format!("pid={}:hwnd={:016x}:class=v8toplevelframe:title=configurator", hwnd as u32, hwnd);
    let segment = LocatorSegment {
        control_type: "Button".to_owned(),
        class_name: Some("V8Button".to_owned()),
        automation_id: None,
        name: Some(name.to_owned()),
        sibling_ordinal: None,
    };
    ElementNode {
        element_id: element_id_from_locator(&window_fingerprint, &vec![segment.clone()]),
        parent_id: Some(element_id_from_locator(&window_fingerprint, &Vec::new())),
        backend: BackendKind::Uia,
        control_type: "Button".to_owned(),
        class_name: Some("V8Button".to_owned()),
        name: Some(name.to_owned()),
        automation_id: None,
        native_window_handle: None,
        bounds: Rect { left: 5, top: 8, width: 20, height: 20 },
        locator: Locator { window_fingerprint, path: vec![segment] },
        properties: Vec::new(),
        states: states(false),
        children: Vec::new(),
        confidence_bits: conf(1.0),
    }
}

fn snapshot(windows: Vec<WindowState>, rev: u64) -> UiSnapshot {
    UiSnapshot {
        session_id: SessionId::from_text("sess-1"),
        rev,
        profile: SessionProfile {
            observation_scope: ObservationScope::Desktop,
            domain_profile: DomainProfile::OnecConfigurator,
            target_filter: None,
        },
        captured_at_unix_ms: 0,
        windows,
    }
}

#[test]
fn stabilize_window_reuses_ids_when_semantic_locator_matches() {
    let previous = sample_window(0x44, "Configurator", BackendKind::Uia, 1.0, false, false);
    let mut refreshed = sample_window(0x44, "Configurator", BackendKind::Uia, 1.0, false, true);

    refreshed.root.children.insert(0, sibling_button(0x44, "Open"));

    let previous_child_id = previous.root.children[0].element_id.clone();
    stabilize_window(&previous, &mut refreshed);

    assert_eq!(refreshed.window_id, previous.window_id);
    assert_eq!(refreshed.root.element_id, previous.root.element_id);
    assert_eq!(refreshed.root.children[1].element_id, previous_child_id);
    assert_eq!(refreshed.root.children[1].locator.path[0].control_type, "Edit");
    assert_eq!(refreshed.root.children[1].locator.path[0].class_name.as_deref(), Some("V8Edit"));
    assert_eq!(refreshed.root.children[1].locator.path[0].sibling_ordinal, None);
}

#[test]
fn unmatched_children_are_reparented() {
    let previous = sample_window(0x44, "Configurator", BackendKind::Uia, 1.0, false, false);
    let mut refreshed = sample_window(0x45, "Configurator", BackendKind::Uia, 1.0, false, false);
    refreshed.root.native_window_handle = None;
    refreshed.pid = 0x44;
    refreshed.root.children.push(sibling_button(0x45, "Close"));
    stabilize_window(&previous, &mut refreshed);
    assert_eq!(refreshed.root.element_id, previous.root.element_id);
    assert_eq!(refreshed.root.children[1].parent_id.as_ref(), Some(&previous.root.element_id));
}

#[test]
fn match_scores_follow_identity_evidence() {
    let a = sample_window(0x44, "Configurator", BackendKind::Uia, 1.0, false, false);
    let b = sample_window(0x44, "Configurator", BackendKind::Uia, 1.0, false, false);
    assert_eq!(window_match_score(&a, &b), Some(1000 + 200 + 80 + 60 + 60));
    let other = sample_window(0x45, "Configurator", BackendKind::Uia, 1.0, false, false);
    assert_eq!(window_match_score(&a, &other), None);
    assert_eq!(element_match_score(&a.root.children[0], &b.root.children[0]), Some(100 + 120 + 120 + 40 + 40));
    assert_eq!(element_match_score(&a.root.children[0], &sibling_button(0x44, "Open")), None);
}

#[test]
fn stabilize_windows_pairs_each_previous_window_once() {
    let previous = vec![sample_window(0x10, "Enterprise", BackendKind::Uia, 1.0, false, false)];
    let mut current = vec![
        sample_window(0x10, "Enterprise", BackendKind::Uia, 1.0, false, false),
        sample_window(0x10, "Enterprise", BackendKind::Uia, 1.0, false, false),
    ];
    current[0].window_id = WindowId::from_text("new-0");
    current[1].window_id = WindowId::from_text("new-1");
    stabilize_windows(&previous, &mut current);
    assert_eq!(current[0].window_id, previous[0].window_id);
    assert_eq!(current[1].window_id, WindowId::from_text("new-1"));
}

#[test]
fn keys_and_ids_are_stable() {
    assert_eq!(normalize_for_key("  V8Edit \n"), "v8edit");
    assert_eq!(normalize_optional_for_key(Some("   ")), "-");
    assert_eq!(normalize_optional_for_key(None), "-");
    let seg = LocatorSegment {
        control_type: "Edit".to_owned(),
        class_name: Some("V8Edit".to_owned()),
        automation_id: None,
        name: Some(" Search ".to_owned()),
        sibling_ordinal: Some(2),
    };
    assert_eq!(locator_segment_key(&seg), "type=edit|class=v8edit|auto=-|name=search|ord=2");
    assert_eq!(
        locator_path_key(&vec![seg.clone(), seg.clone()]),
        "type=edit|class=v8edit|auto=-|name=search|ord=2/type=edit|class=v8edit|auto=-|name=search|ord=2"
    );
    let w1 = window_id_from_fingerprint("fp");
    let w2 = window_id_from_fingerprint("fp");
    assert_eq!(w1, w2);
    assert!(w1.as_str().starts_with("wnd-"));
    assert_eq!(w1.as_str().len(), 20);
    assert_ne!(window_id_from_fingerprint("fp"), window_id_from_fingerprint("fq"));
    let e = element_id_from_locator("fp", &vec![seg]);
    assert!(e.as_str().starts_with("elt-"));
    assert_eq!(e.as_str().len(), 20);
}

#[test]
fn diff_reports_added_removed_replaced_and_focus() {
    let a = sample_window(0x10, "Enterprise", BackendKind::Uia, 1.0, false, false);
    let b = sample_window(0x20, "Configurator", BackendKind::Uia, 1.0, false, false);
    let previous = snapshot(vec![copy(&a), copy(&b)], 1);

    let mut a2 = copy(&a);
    a2.root.children[0].states.focused = true;
    let c = sample_window(0x30, "Designer", BackendKind::Msaa, 0.7, false, false);
    let next = snapshot(vec![a2, copy(&c)], 2);

    let ops = diff_snapshots(&previous, &next);
    let mut ids = vec![a.window_id.clone(), b.window_id.clone(), c.window_id.clone()];
    ids.sort();
    let mut expected_kinds = Vec::new();
    for id in &ids {
        if *id == a.window_id {
            expected_kinds.push("replaced");
            expected_kinds.push("focus");
        } else if *id == b.window_id {
            expected_kinds.push("removed");
        } else {
            expected_kinds.push("added");
        }
    }
    let kinds: Vec<&str> = ops
        .iter()
        .map(|op| match op {
            DiffOp::WindowAdded { .. } => "added",
            DiffOp::WindowRemoved { .. } => "removed",
            DiffOp::NodeReplaced { .. } => "replaced",
            DiffOp::FocusChanged { .. } => "focus",
            _ => "other",
        })
        .collect();
    assert_eq!(kinds, expected_kinds);
    assert!(ops.iter().any(|op| matches!(op, DiffOp::FocusChanged { window_id, element_id: Some(e) }
        if *window_id == a.window_id && *e == a.root.children[0].element_id)));
}

#[test]
fn diff_of_equal_snapshots_is_empty_and_shell_change_readds() {
    let a = sample_window(0x10, "Enterprise", BackendKind::Uia, 1.0, true, false);
    let s = snapshot(vec![copy(&a)], 1);
    assert!(diff_snapshots(&s, &snapshot(vec![copy(&a)], 2)).is_empty());
    assert!(same_window_shell(&a, &copy(&a)));
    assert!(node_equal(&a.root, &copy(&a).root));

    let mut moved = copy(&a);
    moved.title = "Enterprise - moved".to_owned();
    let ops = diff_snapshots(&s, &snapshot(vec![moved], 2));
    assert!(matches!(ops[0], DiffOp::WindowRemoved { .. }));
    assert!(matches!(ops[1], DiffOp::WindowAdded { .. }));
    assert_eq!(ops.len(), 2);
}

#[test]
fn nan_confidence_never_compares_equal() {
    let mut a = sample_window(0x10, "Enterprise", BackendKind::Uia, 1.0, false, false);
    a.root.confidence_bits = f64::NAN.to_bits();
    assert!(!node_equal(&a.root, &copy(&a).root));
    let mut z = copy(&a);
    z.root.confidence_bits = 0.0f64.to_bits();
    let mut nz = copy(&a);
    nz.root.confidence_bits = (-0.0f64).to_bits();
    assert!(node_equal(&z.root, &nz.root));
    let mut p = copy(&z);
    p.root.properties = vec![("ratio".to_owned(), PropertyValue::F64Bits(f64::NAN.to_bits()))];
    assert!(!node_equal(&p.root, &copy(&p).root));
}

#[test]
fn focus_is_found_in_pre_order() {
    let a = sample_window(0x10, "Enterprise", BackendKind::Uia, 1.0, false, true);
    assert_eq!(focused_element_id(&a.root), Some(a.root.children[0].element_id.clone()));
    let b = sample_window(0x10, "Enterprise", BackendKind::Uia, 1.0, true, true);
    assert_eq!(focused_element_id(&b.root), Some(b.root.element_id.clone()));
}

#[test]
fn refreshes_replace_append_or_drop_windows() {
    let a = sample_window(0x10, "Enterprise", BackendKind::Uia, 1.0, false, false);
    let b = sample_window(0x20, "Configurator", BackendKind::Uia, 1.0, false, false);
    let mut windows = vec![copy(&a), copy(&b)];

    let mut again = sample_window(0x10, "Enterprise", BackendKind::Uia, 1.0, false, true);
    again.window_id = WindowId::from_text("fresh");
    apply_window_refresh(&mut windows, 0x10, Some(again));
    assert_eq!(windows.len(), 2);
    assert_eq!(windows[0].window_id, a.window_id);
    assert!(windows[0].root.children[0].states.focused);

    let c = sample_window(0x30, "Designer", BackendKind::Uia, 1.0, false, false);
    apply_window_refresh(&mut windows, 0x30, Some(copy(&c)));
    assert_eq!(windows.len(), 3);

    apply_window_refresh(&mut windows, 0x20, None);
    assert_eq!(windows.len(), 2);
    assert!(windows.iter().all(|w| w.window_id != b.window_id));

    let mut desktop = vec![copy(&c)];
    desktop[0].window_id = WindowId::from_text("fresh-c");
    apply_desktop_refresh(&mut windows, desktop);
    assert_eq!(windows.len(), 1);
    assert_eq!(windows[0].window_id, c.window_id);
}

#[test]
fn snapshots_sort_windows_by_id() {
    let params = BackendSessionParams {
        session_id: SessionId::from_text("sess-9"),
        profile: SessionProfile {
            observation_scope: ObservationScope::Desktop,
            domain_profile: DomainProfile::Generic,
            target_filter: None,
        },
        shallow: false,
    };
    let mut x = sample_window(0x10, "X", BackendKind::Uia, 1.0, false, false);
    x.window_id = WindowId::from_text("wnd-b");
    let mut y = sample_window(0x20, "Y", BackendKind::Uia, 1.0, false, false);
    y.window_id = WindowId::from_text("wnd-a");
    let snap = snapshot_from_windows(&params, 1, vec![x, y]);
    assert_eq!(snap.rev, 1);
    assert_eq!(snap.session_id.as_str(), "sess-9");
    assert_eq!(snap.windows[0].window_id.as_str(), "wnd-a");
    assert_eq!(snap.windows[1].window_id.as_str(), "wnd-b");
    assert!(snap.captured_at_unix_ms > 0);
}

fn copy(w: &WindowState) -> WindowState {
    vmui::copy::copy_window(w)
}

#[test]
fn match_points_add_up_only_with_an_anchor() {
    use_match_points();
}

fn use_match_points() {
    assert_eq!(vmui::compare::match_points(true, true, true, true, true, true, true, true, true), 21);
    assert_eq!(vmui::compare::match_points(false, false, false, true, true, true, true, true, true), 0);
    assert_eq!(vmui::compare::match_points(true, false, false, true, false, true, false, false, false), 7);
}
