//! Deep copies whose views equal the original's.
use vstd::prelude::*;

use crate::model::{lemma_children_view, nodes_view, properties_view, strings_view, windows_view};
use crate::protocol::{
    DiffOp, ElementId, ElementNode, Locator, LocatorSegment, PropertyValue, SessionProfile,
    UiDiffBatch, UiSnapshot, WindowId, WindowLocator, WindowState,
};
use crate::text::{copy_opt_string, copy_strings};

verus! {

/// A copy of an element id.
pub fn copy_element_id(e: &ElementId) -> (r: ElementId)
    ensures
        r@ == e@,
{
    ElementId(e.0.clone())
}

/// A copy of an optional element id.
pub fn copy_opt_element_id(e: &Option<ElementId>) -> (r: Option<ElementId>)
    ensures
        match (r, *e) {
            (Some(a), Some(b)) => a@ == b@,
            (None, None) => true,
            _ => false,
        },
{
    match e {
        Some(x) => Some(copy_element_id(x)),
        None => None,
    }
}

/// A copy of a window id.
pub fn copy_window_id(w: &WindowId) -> (r: WindowId)
    ensures
        r@ == w@,
{
    WindowId(w.0.clone())
}

/// A copy of a locator segment.
pub fn copy_segment(s: &LocatorSegment) -> (r: LocatorSegment)
    ensures
        r@ == s@,
{
    LocatorSegment {
        control_type: s.control_type.clone(),
        class_name: copy_opt_string(&s.class_name),
        automation_id: copy_opt_string(&s.automation_id),
        name: copy_opt_string(&s.name),
        sibling_ordinal: s.sibling_ordinal,
    }
}

/// A copy of a locator.
pub fn copy_locator(l: &Locator) -> (r: Locator)
    ensures
        r@ == l@,
{
    let mut path: Vec<LocatorSegment> = Vec::new();
    let mut i: usize = 0;
    while i < l.path.len()
        invariant
            i <= l.path@.len(),
            path@.len() == i,
            forall|j: int| 0 <= j < i ==> #[trigger] path@[j]@ == l.path@[j]@,
        decreases l.path@.len() - i,
    {
        path.push(copy_segment(&l.path[i]));
        i = i + 1;
    }
    let r = Locator { window_fingerprint: l.window_fingerprint.clone(), path };
    assert(r@.path =~= l@.path);
    r
}

/// A copy of a locator path.
pub fn copy_segments(v: &Vec<LocatorSegment>) -> (r: Vec<LocatorSegment>)
    ensures
        r@.map_values(|s: LocatorSegment| s@) == v@.map_values(|s: LocatorSegment| s@),
{
    let mut out: Vec<LocatorSegment> = Vec::new();
    let mut i: usize = 0;
    while i < v.len()
        invariant
            i <= v@.len(),
            out@.len() == i,
            forall|j: int| 0 <= j < i ==> #[trigger] out@[j]@ == v@[j]@,
        decreases v@.len() - i,
    {
        out.push(copy_segment(&v[i]));
        i = i + 1;
    }
    assert(out@.map_values(|s: LocatorSegment| s@) =~= v@.map_values(|s: LocatorSegment| s@));
    out
}

/// A copy of a property value.
pub fn copy_property_value(v: &PropertyValue) -> (r: PropertyValue)
    ensures
        r@ == v@,
{
    match v {
        PropertyValue::Bool(b) => PropertyValue::Bool(*b),
        PropertyValue::I64(x) => PropertyValue::I64(*x),
        PropertyValue::F64Bits(x) => PropertyValue::F64Bits(*x),
        PropertyValue::String(s) => PropertyValue::String(s.clone()),
        PropertyValue::StringList(l) => {
            let c = copy_strings(l);
            assert(strings_view(c@) =~= strings_view(l@));
            PropertyValue::StringList(c)
        },
        PropertyValue::Rect(r) => PropertyValue::Rect(*r),
        PropertyValue::Null => PropertyValue::Null,
    }
}

/// A copy of a property list.
pub fn copy_properties(ps: &Vec<(String, PropertyValue)>) -> (r: Vec<(String, PropertyValue)>)
    ensures
        properties_view(r@) == properties_view(ps@),
{
    let mut out: Vec<(String, PropertyValue)> = Vec::new();
    let mut i: usize = 0;
    while i < ps.len()
        invariant
            i <= ps@.len(),
            out@.len() == i,
            forall|j: int| 0 <= j < i ==> #[trigger] out@[j].0@ == ps@[j].0@ && out@[j].1@ == ps@[j].1@,
        decreases ps@.len() - i,
    {
        let k = ps[i].0.clone();
        let v = copy_property_value(&ps[i].1);
        out.push((k, v));
        i = i + 1;
    }
    assert(properties_view(out@) =~= properties_view(ps@));
    out
}

/// A deep copy of an element subtree.
pub fn copy_node(n: &ElementNode) -> (r: ElementNode)
    ensures
        r@ == n@,
    decreases n,
{
    proof {
        lemma_children_view(*n);
    }
    let mut children: Vec<ElementNode> = Vec::new();
    let mut i: usize = 0;
    while i < n.children.len()
        invariant
            i <= n.children@.len(),
            children@.len() == i,
            forall|j: int| 0 <= j < i ==> #[trigger] children@[j]@ == n.children@[j]@,
        decreases n.children@.len() - i,
    {
        proof {
            assert(decreases_to!(n => n.children));
            assert(decreases_to!(n.children => n.children@));
            assert(decreases_to!(n.children@ => n.children@[i as int]));
        }
        children.push(copy_node(&n.children[i]));
        i = i + 1;
    }
    let r = ElementNode {
        element_id: copy_element_id(&n.element_id),
        parent_id: copy_opt_element_id(&n.parent_id),
        backend: n.backend,
        control_type: n.control_type.clone(),
        class_name: copy_opt_string(&n.class_name),
        name: copy_opt_string(&n.name),
        automation_id: copy_opt_string(&n.automation_id),
        native_window_handle: n.native_window_handle,
        bounds: n.bounds,
        locator: copy_locator(&n.locator),
        properties: copy_properties(&n.properties),
        states: n.states,
        children,
        confidence_bits: n.confidence_bits,
    };
    proof {
        lemma_children_view(r);
        assert(nodes_view(r.children@) =~= nodes_view(n.children@));
        assert(r@ =~= n@);
    }
    r
}

/// A deep copy of a window.
pub fn copy_window(w: &WindowState) -> (r: WindowState)
    ensures
        r@ == w@,
{
    WindowState {
        window_id: copy_window_id(&w.window_id),
        pid: w.pid,
        process_name: copy_opt_string(&w.process_name),
        title: w.title.clone(),
        bounds: w.bounds,
        backend: w.backend,
        confidence_bits: w.confidence_bits,
        root: copy_node(&w.root),
    }
}

/// A deep copy of a list of windows.
pub fn copy_windows(ws: &Vec<WindowState>) -> (r: Vec<WindowState>)
    ensures
        windows_view(r@) == windows_view(ws@),
{
    let mut out: Vec<WindowState> = Vec::new();
    let mut i: usize = 0;
    while i < ws.len()
        invariant
            i <= ws@.len(),
            out@.len() == i,
            forall|j: int| 0 <= j < i ==> #[trigger] out@[j]@ == ws@[j]@,
        decreases ws@.len() - i,
    {
        out.push(copy_window(&ws[i]));
        i = i + 1;
    }
    assert(windows_view(out@) =~= windows_view(ws@));
    out
}

/// A copy of a window locator.
pub fn copy_window_locator(l: &WindowLocator) -> (r: WindowLocator)
    ensures
        r@ == l@,
{
    WindowLocator {
        window_id: match &l.window_id {
            Some(w) => Some(copy_window_id(w)),
            None => None,
        },
        title: copy_opt_string(&l.title),
        pid: l.pid,
        process_name: copy_opt_string(&l.process_name),
        class_name: copy_opt_string(&l.class_name),
    }
}

/// A copy of a session profile.
pub fn copy_profile(p: &SessionProfile) -> (r: SessionProfile)
    ensures
        r@ == p@,
{
    SessionProfile {
        observation_scope: p.observation_scope,
        domain_profile: p.domain_profile,
        target_filter: match &p.target_filter {
            Some(f) => Some(copy_window_locator(f)),
            None => None,
        },
    }
}

/// A deep copy of a snapshot.
pub fn copy_snapshot(s: &UiSnapshot) -> (r: UiSnapshot)
    ensures
        r@ == s@,
{
    UiSnapshot {
        session_id: crate::protocol::SessionId(s.session_id.0.clone()),
        rev: s.rev,
        profile: copy_profile(&s.profile),
        captured_at_unix_ms: s.captured_at_unix_ms,
        windows: copy_windows(&s.windows),
    }
}

/// A deep copy of a diff operation.
pub fn copy_diff_op(op: &DiffOp) -> (r: DiffOp)
    ensures
        r@ == op@,
{
    match op {
        DiffOp::WindowAdded { window } => DiffOp::WindowAdded { window: copy_window(window) },
        DiffOp::WindowRemoved { window_id } => DiffOp::WindowRemoved { window_id: copy_window_id(window_id) },
        DiffOp::NodeAdded { parent_id, node } => DiffOp::NodeAdded {
            parent_id: copy_element_id(parent_id),
            node: copy_node(node),
        },
        DiffOp::NodeRemoved { element_id } => DiffOp::NodeRemoved { element_id: copy_element_id(element_id) },
        DiffOp::NodeReplaced { element_id, node } => DiffOp::NodeReplaced {
            element_id: copy_element_id(element_id),
            node: copy_node(node),
        },
        DiffOp::PropertyChanged { element_id, field, value } => DiffOp::PropertyChanged {
            element_id: copy_element_id(element_id),
            field: field.clone(),
            value: copy_property_value(value),
        },
        DiffOp::FocusChanged { window_id, element_id } => DiffOp::FocusChanged {
            window_id: copy_window_id(window_id),
            element_id: match element_id {
                Some(e) => Some(copy_element_id(e)),
                None => None,
            },
        },
        DiffOp::SnapshotResync { reason } => DiffOp::SnapshotResync { reason: reason.clone() },
    }
}

/// A deep copy of a diff batch.
pub fn copy_diff(d: &UiDiffBatch) -> (r: UiDiffBatch)
    ensures
        r@ == d@,
{
    let mut ops: Vec<DiffOp> = Vec::new();
    let mut i: usize = 0;
    while i < d.ops.len()
        invariant
            i <= d.ops@.len(),
            ops@.len() == i,
            forall|j: int| 0 <= j < i ==> #[trigger] ops@[j]@ == d.ops@[j]@,
        decreases d.ops@.len() - i,
    {
        ops.push(copy_diff_op(&d.ops[i]));
        i = i + 1;
    }
    let r = UiDiffBatch {
        base_rev: d.base_rev,
        new_rev: d.new_rev,
        emitted_at_unix_ms: d.emitted_at_unix_ms,
        ops,
    };
    assert(r@.ops =~= d@.ops);
    r
}

} // verus!
