//! The per-session UI state store and the application of diff batches.
use vstd::prelude::*;

use crate::copy::{copy_element_id, copy_property_value, copy_window_id};
use crate::diffspec::{
    add_child, bool_value, confidence_value, is_state_field, level_window, opt_string_value,
    focus_node, lemma_level_window, lemma_pre_window, lemma_replace_window, lemma_window_index,
    pre_window, prop_index, prop_insert, prop_slot, replace_window, set_field, set_state, step,
    upsert_window, window_index, with_root, StateErrorV, StoreV, apply_diff_spec, first_resync,
    run_ops, sort_windows, stale_reason, upper_bound,
};
use crate::copy::{copy_node, copy_window};
use crate::decimal::{decimal, u64_to_decimal};
use crate::protocol::{DiffOp, UiDiffBatch, UiSnapshot};
use crate::floatbits::{narrow_f64_bits, narrow_i64_bits, widen_f32_bits};
use crate::model::{DiffOpV, NodeV, PropertyValueV};
use crate::model::{lemma_children_view, nodes_view, properties_view, windows_view};
use crate::protocol::{ElementId, ElementNode, PropertyValue, WindowId, WindowState};
use crate::text::{str_equal, str_less};
use crate::tree::{
    clear_focus, clear_subtree_focus, find_child_index, find_level_path, find_pre_path,
    first_index, lemma_first_index, lemma_level_path_valid, lemma_path_prefix,
    lemma_pre_path_valid, lemma_set_at_same, lemma_set_at_twice, lemma_set_at_valid,
    lemma_view_with_children, level_path, node_at, path_view, placeholder_node, pre_path,
    remove_at, reparent, reparent_subtree, set_at, subtree_at, swap_at, take_at,
};

verus! {

/// Why a diff could not be applied.
#[derive(Debug, PartialEq, Eq)]
pub enum StateError {
    MissingSnapshot,
    StaleDiff { expected_base_rev: u64, actual_base_rev: u64 },
    NonMonotonicDiff { current_rev: u64, next_rev: u64 },
    MissingWindow(WindowId),
    MissingElement(ElementId),
    InvalidPropertyUpdate { field: String },
}

impl View for StateError {
    type V = StateErrorV;

    open spec fn view(&self) -> StateErrorV {
        match self {
            StateError::MissingSnapshot => StateErrorV::MissingSnapshot,
            StateError::StaleDiff { expected_base_rev, actual_base_rev } => StateErrorV::StaleDiff {
                expected_base_rev: *expected_base_rev,
                actual_base_rev: *actual_base_rev,
            },
            StateError::NonMonotonicDiff { current_rev, next_rev } => StateErrorV::NonMonotonicDiff {
                current_rev: *current_rev,
                next_rev: *next_rev,
            },
            StateError::MissingWindow(w) => StateErrorV::MissingWindow(w@),
            StateError::MissingElement(e) => StateErrorV::MissingElement(e@),
            StateError::InvalidPropertyUpdate { field } => StateErrorV::InvalidPropertyUpdate {
                field: field@,
            },
        }
    }
}

/// The error of a result, as a view.
pub open spec fn err_view(r: Result<(), StateError>) -> Option<StateErrorV> {
    match r {
        Ok(_) => None,
        Err(e) => Some(e@),
    }
}

/// Position of the first window with id `id`.
pub fn find_window(ws: &Vec<WindowState>, id: &str) -> (r: Option<usize>)
    ensures
        match r {
            Some(k) => window_index(windows_view(ws@), id@, 0) == Some(k as int),
            None => window_index(windows_view(ws@), id@, 0) is None,
        },
{
    let ghost wv = windows_view(ws@);
    let mut i: usize = 0;
    while i < ws.len()
        invariant
            i <= ws@.len(),
            wv == windows_view(ws@),
            window_index(wv, id@, 0) == window_index(wv, id@, i as int),
        decreases ws@.len() - i,
    {
        if str_equal(ws[i].window_id.0.as_str(), id) {
            return Some(i);
        }
        i = i + 1;
    }
    None
}

/// First window whose tree holds `id`, with the pre-order path to it.
fn find_pre_window(ws: &Vec<WindowState>, id: &str) -> (r: Option<(usize, Vec<usize>)>)
    ensures
        match r {
            Some((k, p)) => pre_window(windows_view(ws@), id@, 0) == Some(k as int) && pre_path(
                windows_view(ws@)[k as int].root,
                id@,
            ) == Some(path_view(p@)),
            None => pre_window(windows_view(ws@), id@, 0) is None,
        },
{
    let ghost wv = windows_view(ws@);
    let mut i: usize = 0;
    while i < ws.len()
        invariant
            i <= ws@.len(),
            wv == windows_view(ws@),
            pre_window(wv, id@, 0) == pre_window(wv, id@, i as int),
        decreases ws@.len() - i,
    {
        if let Some(p) = find_pre_path(&ws[i].root, id) {
            return Some((i, p));
        }
        i = i + 1;
    }
    None
}

/// First window holding `id` below its root, with the level-first path to it.
fn find_level_window(ws: &Vec<WindowState>, id: &str) -> (r: Option<(usize, Vec<usize>)>)
    ensures
        match r {
            Some((k, p)) => level_window(windows_view(ws@), id@, 0) == Some(k as int) && level_path(
                windows_view(ws@)[k as int].root,
                id@,
            ) == Some(path_view(p@)),
            None => level_window(windows_view(ws@), id@, 0) is None,
        },
{
    let ghost wv = windows_view(ws@);
    let mut i: usize = 0;
    while i < ws.len()
        invariant
            i <= ws@.len(),
            wv == windows_view(ws@),
            level_window(wv, id@, 0) == level_window(wv, id@, i as int),
        decreases ws@.len() - i,
    {
        if let Some(p) = find_level_path(&ws[i].root, id) {
            return Some((i, p));
        }
        i = i + 1;
    }
    None
}

/// First window whose root is `id` (no path) or holds it below (with its path).
fn find_replace_window(ws: &Vec<WindowState>, id: &str) -> (r: Option<(usize, Option<Vec<usize>>)>)
    ensures
        match r {
            Some((k, None)) => replace_window(windows_view(ws@), id@, 0) == Some(k as int)
                && windows_view(ws@)[k as int].root.element_id == id@,
            Some((k, Some(p))) => replace_window(windows_view(ws@), id@, 0) == Some(k as int)
                && windows_view(ws@)[k as int].root.element_id != id@
                && level_path(windows_view(ws@)[k as int].root, id@) == Some(path_view(p@)),
            None => replace_window(windows_view(ws@), id@, 0) is None,
        },
{
    let ghost wv = windows_view(ws@);
    let mut i: usize = 0;
    while i < ws.len()
        invariant
            i <= ws@.len(),
            wv == windows_view(ws@),
            replace_window(wv, id@, 0) == replace_window(wv, id@, i as int),
        decreases ws@.len() - i,
    {
        if str_equal(ws[i].root.element_id.0.as_str(), id) {
            return Some((i, None));
        }
        if let Some(p) = find_level_path(&ws[i].root, id) {
            return Some((i, Some(p)));
        }
        i = i + 1;
    }
    None
}

/// Puts `node`, re-parented under `parent`, in place of the child with the
/// same id, or appends it.
fn add_child_exec(parent: &mut ElementNode, node: ElementNode)
    ensures
        final(parent)@ == add_child(old(parent)@, node@),
{
    let ghost before = *parent;
    let mut node = node;
    let pid = copy_element_id(&parent.element_id);
    reparent_subtree(&mut node, Some(&pid));
    proof {
        lemma_children_view(before);
    }
    let found = find_child_index(parent, node.element_id.0.as_str());
    proof {
        lemma_first_index(before@.children, node@.element_id, 0);
    }
    match found {
        Some(k) => {
            parent.children.remove(k);
            parent.children.insert(k, node);
            proof {
                lemma_view_with_children(before, *parent);
                assert(nodes_view(parent.children@) =~= before@.children.update(k as int, node@));
            }
        },
        None => {
            parent.children.push(node);
            proof {
                lemma_view_with_children(before, *parent);
                assert(nodes_view(parent.children@) =~= before@.children.push(node@));
            }
        },
    }
}

/// Sets property `key` to `value`, in place or at its sorted position.
fn prop_insert_exec(ps: &mut Vec<(String, PropertyValue)>, key: &str, value: PropertyValue)
    ensures
        properties_view(final(ps)@) == prop_insert(properties_view(old(ps)@), key@, value@),
{
    let ghost pv = properties_view(ps@);
    let mut i: usize = 0;
    while i < ps.len()
        invariant
            i <= ps@.len(),
            pv == properties_view(ps@),
            pv == properties_view(old(ps)@),
            prop_index(pv, key@, 0) == prop_index(pv, key@, i as int),
        decreases ps@.len() - i,
    {
        if str_equal(ps[i].0.as_str(), key) {
            assert(pv[i as int].0 == key@);
            assert(prop_index(pv, key@, i as int) == Some(i as int));
            let k = String::from_str(key);
            ps.remove(i);
            ps.insert(i, (k, value));
            assert(properties_view(ps@) =~= pv.update(i as int, (key@, value@)));
            assert(prop_insert(pv, key@, value@) == pv.update(i as int, (key@, value@)));
            return;
        }
        i = i + 1;
    }
    let mut j: usize = 0;
    while j < ps.len() && !str_less(key, ps[j].0.as_str())
        invariant
            j <= ps@.len(),
            pv == properties_view(ps@),
            pv == properties_view(old(ps)@),
            prop_slot(pv, key@, 0) == prop_slot(pv, key@, j as int),
        decreases ps@.len() - j,
    {
        j = j + 1;
    }
    assert(prop_slot(pv, key@, 0) == j as int);
    let k = String::from_str(key);
    ps.insert(j, (k, value));
    assert(properties_view(ps@) =~= pv.insert(j as int, (key@, value@)));
}

/// Nodes with the same children have the same children views.
proof fn lemma_same_children(a: ElementNode, b: ElementNode)
    requires
        a.children == b.children,
    ensures
        a@.children == b@.children,
{
    lemma_children_view(a);
    lemma_children_view(b);
}

/// An optional string from a string or null value.
fn opt_string_from(v: &PropertyValue) -> (r: Option<Option<String>>)
    ensures
        match r {
            Some(Some(x)) => opt_string_value(v@) == Some(Some(x@)),
            Some(None) => opt_string_value(v@) == Some(None::<Seq<char>>),
            None => opt_string_value(v@) is None,
        },
{
    match v {
        PropertyValue::String(x) => Some(Some(x.clone())),
        PropertyValue::Null => Some(None),
        _ => None,
    }
}

/// The stored confidence for a numeric value.
fn confidence_from(v: &PropertyValue) -> (r: Option<u64>)
    ensures
        r == confidence_value(v@),
{
    match v {
        PropertyValue::F64Bits(b) => Some(widen_f32_bits(narrow_f64_bits(*b))),
        PropertyValue::I64(x) => Some(widen_f32_bits(narrow_i64_bits(*x))),
        _ => None,
    }
}

/// Sets the name, class name or automation id (by `which`: 0, 1, 2).
fn set_text_field(n: &mut ElementNode, which: u8, x: Option<String>)
    ensures
        final(n)@ == (if which == 0 {
            NodeV { name: crate::text::opt_view(x), ..old(n)@ }
        } else if which == 1 {
            NodeV { class_name: crate::text::opt_view(x), ..old(n)@ }
        } else {
            NodeV { automation_id: crate::text::opt_view(x), ..old(n)@ }
        }),
{
    let ghost before = *n;
    if which == 0 {
        n.name = x;
    } else if which == 1 {
        n.class_name = x;
    } else {
        n.automation_id = x;
    }
    proof {
        lemma_same_children(before, *n);
    }
    assert(n@ =~= (if which == 0 {
        NodeV { name: crate::text::opt_view(x), ..before@ }
    } else if which == 1 {
        NodeV { class_name: crate::text::opt_view(x), ..before@ }
    } else {
        NodeV { automation_id: crate::text::opt_view(x), ..before@ }
    }));
}

/// Sets the control type.
fn set_control_type(n: &mut ElementNode, x: String)
    ensures
        final(n)@ == (NodeV { control_type: x@, ..old(n)@ }),
{
    let ghost before = *n;
    n.control_type = x;
    proof {
        lemma_same_children(before, *n);
    }
    assert(n@ =~= (NodeV { control_type: x@, ..before@ }));
}

/// Sets the native window handle.
fn set_handle(n: &mut ElementNode, h: Option<u64>)
    ensures
        final(n)@ == (NodeV { native_window_handle: h, ..old(n)@ }),
{
    let ghost before = *n;
    n.native_window_handle = h;
    proof {
        lemma_same_children(before, *n);
    }
    assert(n@ =~= (NodeV { native_window_handle: h, ..before@ }));
}

/// Sets the bounds.
fn set_bounds(n: &mut ElementNode, r: crate::protocol::Rect)
    ensures
        final(n)@ == (NodeV { bounds: r, ..old(n)@ }),
{
    let ghost before = *n;
    n.bounds = r;
    proof {
        lemma_same_children(before, *n);
    }
    assert(n@ =~= (NodeV { bounds: r, ..before@ }));
}

/// Sets the confidence bits.
fn set_confidence(n: &mut ElementNode, b: u64)
    ensures
        final(n)@ == (NodeV { confidence_bits: b, ..old(n)@ }),
{
    let ghost before = *n;
    n.confidence_bits = b;
    proof {
        lemma_same_children(before, *n);
    }
    assert(n@ =~= (NodeV { confidence_bits: b, ..before@ }));
}

/// Sets one boolean state named by its field.
fn set_state_exec(n: &mut ElementNode, field: &str, b: bool)
    ensures
        final(n)@ == (NodeV { states: set_state(old(n)@.states, field@, b), ..old(n)@ }),
{
    let ghost before = *n;
    if str_equal(field, "states.enabled") {
        n.states.enabled = b;
    } else if str_equal(field, "states.visible") {
        n.states.visible = b;
    } else if str_equal(field, "states.focused") {
        n.states.focused = b;
    } else if str_equal(field, "states.selected") {
        n.states.selected = b;
    } else if str_equal(field, "states.expanded") {
        n.states.expanded = b;
    } else {
        n.states.toggled = b;
    }
    proof {
        lemma_same_children(before, *n);
    }
    assert(n@ =~= (NodeV { states: set_state(before@.states, field@, b), ..before@ }));
}

/// Sets an extra property.
fn set_property(n: &mut ElementNode, field: &str, v: PropertyValue)
    ensures
        final(n)@ == (NodeV { properties: prop_insert(old(n)@.properties, field@, v@), ..old(n)@ }),
{
    let ghost before = *n;
    prop_insert_exec(&mut n.properties, field, v);
    proof {
        lemma_same_children(before, *n);
    }
    assert(n@ =~= (NodeV { properties: prop_insert(before@.properties, field@, v@), ..before@ }));
}

/// Whether `field` names a boolean state.
fn is_state_field_exec(field: &str) -> (r: bool)
    ensures
        r == is_state_field(field@),
{
    str_equal(field, "states.enabled") || str_equal(field, "states.visible") || str_equal(
        field,
        "states.focused",
    ) || str_equal(field, "states.selected") || str_equal(field, "states.expanded") || str_equal(
        field,
        "states.toggled",
    )
}

/// Sets one field of a node from a property value; `false`, with the node
/// unchanged, when the value does not fit the field.
#[verifier::rlimit(40)]
fn apply_field(n: &mut ElementNode, field: &str, value: &PropertyValue) -> (ok: bool)
    ensures
        match set_field(old(n)@, field@, value@) {
            Some(m) => ok && final(n)@ == m,
            None => !ok && final(n)@ == old(n)@,
        },
{
    if str_equal(field, "name") || str_equal(field, "class_name") || str_equal(field, "automation_id") {
        let which: u8 = if str_equal(field, "name") {
            0
        } else if str_equal(field, "class_name") {
            1
        } else {
            2
        };
        match opt_string_from(value) {
            Some(x) => {
                set_text_field(n, which, x);
                true
            },
            None => false,
        }
    } else if str_equal(field, "control_type") {
        match value {
            PropertyValue::String(x) => {
                set_control_type(n, x.clone());
                true
            },
            _ => false,
        }
    } else if str_equal(field, "native_window_handle") {
        match value {
            PropertyValue::I64(x) => {
                if *x >= 0 {
                    set_handle(n, Some(*x as u64));
                    true
                } else {
                    false
                }
            },
            PropertyValue::Null => {
                set_handle(n, None);
                true
            },
            _ => false,
        }
    } else if str_equal(field, "bounds") {
        match value {
            PropertyValue::Rect(r) => {
                set_bounds(n, *r);
                true
            },
            _ => false,
        }
    } else if str_equal(field, "confidence") {
        match confidence_from(value) {
            Some(b) => {
                set_confidence(n, b);
                true
            },
            None => false,
        }
    } else if is_state_field_exec(field) {
        match value {
            PropertyValue::Bool(b) => {
                set_state_exec(n, field, *b);
                true
            },
            _ => false,
        }
    } else {
        set_property(n, field, copy_property_value(value));
        true
    }
}

/// Replaces the window with the same id, or appends it.
fn upsert_window_exec(ws: &mut Vec<WindowState>, w: WindowState)
    ensures
        windows_view(final(ws)@) == upsert_window(windows_view(old(ws)@), w@),
{
    let ghost wv = windows_view(ws@);
    let found = find_window(ws, w.window_id.0.as_str());
    proof {
        lemma_window_index(wv, w@.window_id, 0);
    }
    match found {
        Some(k) => {
            ws.remove(k);
            ws.insert(k, w);
            assert(windows_view(ws@) =~= wv.update(k as int, w@));
        },
        None => {
            ws.push(w);
            assert(windows_view(ws@) =~= wv.push(w@));
        },
    }
}

/// Removes the window with id `id`.
fn remove_window_exec(ws: &mut Vec<WindowState>, id: &WindowId) -> (r: Result<(), StateError>)
    ensures
        (windows_view(final(ws)@), err_view(r)) == step(
            windows_view(old(ws)@),
            DiffOpV::WindowRemoved { window_id: id@ },
        ),
{
    let ghost wv = windows_view(ws@);
    let found = find_window(ws, id.0.as_str());
    proof {
        lemma_window_index(wv, id@, 0);
    }
    match found {
        Some(k) => {
            ws.remove(k);
            assert(windows_view(ws@) =~= wv.remove(k as int));
            Ok(())
        },
        None => Err(StateError::MissingWindow(copy_window_id(id))),
    }
}

/// Adds (or replaces) `node` under the first node with id `parent_id`.
fn add_node_exec(ws: &mut Vec<WindowState>, parent_id: &ElementId, node: ElementNode) -> (r: Result<(), StateError>)
    ensures
        (windows_view(final(ws)@), err_view(r)) == step(
            windows_view(old(ws)@),
            DiffOpV::NodeAdded { parent_id: parent_id@, node: node@ },
        ),
{
    let ghost wv = windows_view(ws@);
    let found = find_pre_window(ws, parent_id.0.as_str());
    proof {
        lemma_pre_window(wv, parent_id@, 0);
    }
    match found {
        None => Err(StateError::MissingElement(copy_element_id(parent_id))),
        Some((k, p)) => {
            let ghost root0 = wv[k as int].root;
            let ghost pv = path_view(p@);
            proof {
                lemma_pre_path_valid(root0, parent_id@);
                assert(pv.skip(0) =~= pv);
            }
            let mut w = ws.remove(k);
            let ph = placeholder_node();
            let mut parent = swap_at(&mut w.root, &p, 0, ph);
            let ghost mid = w.root@;
            add_child_exec(&mut parent, node);
            proof {
                lemma_set_at_valid(root0, pv, ph@);
            }
            let _ = swap_at(&mut w.root, &p, 0, parent);
            proof {
                lemma_set_at_twice(root0, pv, ph@, parent@);
            }
            ws.insert(k, w);
            assert(windows_view(ws@) =~= with_root(wv, k as int, set_at(root0, pv, add_child(node_at(root0, pv), node@))));
            Ok(())
        },
    }
}

/// Removes the node with id `id`, searched level first below each window's root.
fn remove_node_exec(ws: &mut Vec<WindowState>, id: &ElementId) -> (r: Result<(), StateError>)
    ensures
        (windows_view(final(ws)@), err_view(r)) == step(
            windows_view(old(ws)@),
            DiffOpV::NodeRemoved { element_id: id@ },
        ),
{
    let ghost wv = windows_view(ws@);
    let found = find_level_window(ws, id.0.as_str());
    proof {
        lemma_level_window(wv, id@, 0);
    }
    match found {
        None => Err(StateError::MissingElement(copy_element_id(id))),
        Some((k, p)) => {
            let ghost root0 = wv[k as int].root;
            let ghost pv = path_view(p@);
            proof {
                lemma_level_path_valid(root0, id@);
                assert(pv.skip(0) =~= pv);
            }
            let mut w = ws.remove(k);
            let _ = take_at(&mut w.root, &p, 0);
            ws.insert(k, w);
            assert(windows_view(ws@) =~= with_root(wv, k as int, remove_at(root0, pv)));
            Ok(())
        },
    }
}

/// The path without its last step.
fn path_prefix(p: &Vec<usize>) -> (q: Vec<usize>)
    requires
        p@.len() >= 1,
    ensures
        path_view(q@) == path_view(p@).drop_last(),
{
    let mut q: Vec<usize> = Vec::new();
    let mut i: usize = 0;
    while i < p.len() - 1
        invariant
            p@.len() >= 1,
            i <= p@.len() - 1,
            q@ == p@.take(i as int),
        decreases p@.len() - i,
    {
        q.push(p[i]);
        assert(q@ =~= p@.take(i + 1));
        i = i + 1;
    }
    assert(path_view(q@) =~= path_view(p@).drop_last());
    q
}

/// Replaces the node with id `id`: a window's root, or a node below it.
fn replace_node_exec(ws: &mut Vec<WindowState>, id: &ElementId, node: ElementNode) -> (r: Result<(), StateError>)
    ensures
        (windows_view(final(ws)@), err_view(r)) == step(
            windows_view(old(ws)@),
            DiffOpV::NodeReplaced { element_id: id@, node: node@ },
        ),
{
    let ghost wv = windows_view(ws@);
    let found = find_replace_window(ws, id.0.as_str());
    proof {
        lemma_replace_window(wv, id@, 0);
    }
    let ghost node0 = node@;
    let mut node = node;
    match found {
        None => Err(StateError::MissingElement(copy_element_id(id))),
        Some((k, None)) => {
            reparent_subtree(&mut node, None);
            let mut w = ws.remove(k);
            w.root = node;
            ws.insert(k, w);
            assert(windows_view(ws@) =~= with_root(wv, k as int, node@));
            Ok(())
        },
        Some((k, Some(p))) => {
            let ghost root0 = wv[k as int].root;
            let ghost pv = path_view(p@);
            proof {
                lemma_level_path_valid(root0, id@);
                lemma_path_prefix(root0, pv);
                assert(pv.skip(0) =~= pv);
            }
            let q = path_prefix(&p);
            proof {
                assert(path_view(q@).skip(0) =~= path_view(q@));
            }
            let pid = copy_element_id(&subtree_at(&ws[k].root, &q, 0).element_id);
            reparent_subtree(&mut node, Some(&pid));
            let mut w = ws.remove(k);
            let _ = swap_at(&mut w.root, &p, 0, node);
            ws.insert(k, w);
            assert(windows_view(ws@) =~= with_root(
                wv,
                k as int,
                set_at(root0, pv, reparent(node0, Some(node_at(root0, pv.drop_last()).element_id))),
            ));
            Ok(())
        },
    }
}

/// Sets a field of the first node with id `id`.
fn property_change_exec(ws: &mut Vec<WindowState>, id: &ElementId, field: &String, value: &PropertyValue) -> (r: Result<(), StateError>)
    ensures
        (windows_view(final(ws)@), err_view(r)) == step(
            windows_view(old(ws)@),
            DiffOpV::PropertyChanged { element_id: id@, field: field@, value: value@ },
        ),
{
    let ghost wv = windows_view(ws@);
    let found = find_pre_window(ws, id.0.as_str());
    proof {
        lemma_pre_window(wv, id@, 0);
    }
    match found {
        None => Err(StateError::MissingElement(copy_element_id(id))),
        Some((k, p)) => {
            let ghost root0 = wv[k as int].root;
            let ghost pv = path_view(p@);
            proof {
                lemma_pre_path_valid(root0, id@);
                assert(pv.skip(0) =~= pv);
            }
            let mut w = ws.remove(k);
            let ph = placeholder_node();
            let mut target = swap_at(&mut w.root, &p, 0, ph);
            let ghost t0 = target@;
            let ok = apply_field(&mut target, field.as_str(), value);
            proof {
                lemma_set_at_valid(root0, pv, ph@);
            }
            let _ = swap_at(&mut w.root, &p, 0, target);
            proof {
                lemma_set_at_twice(root0, pv, ph@, target@);
                if !ok {
                    lemma_set_at_same(root0, pv);
                }
            }
            ws.insert(k, w);
            if ok {
                assert(windows_view(ws@) =~= with_root(wv, k as int, set_at(root0, pv, target@)));
                Ok(())
            } else {
                assert(windows_view(ws@) =~= wv);
                Err(StateError::InvalidPropertyUpdate { field: field.clone() })
            }
        },
    }
}

/// Moves focus inside window `wid`: clears it everywhere, then sets it on `eid`.
fn focus_change_exec(ws: &mut Vec<WindowState>, wid: &WindowId, eid: &Option<ElementId>) -> (r: Result<(), StateError>)
    ensures
        (windows_view(final(ws)@), err_view(r)) == step(
            windows_view(old(ws)@),
            DiffOpV::FocusChanged {
                window_id: wid@,
                element_id: match eid {
                    Some(e) => Some(e@),
                    None => None,
                },
            },
        ),
{
    let ghost wv = windows_view(ws@);
    let found = find_window(ws, wid.0.as_str());
    proof {
        lemma_window_index(wv, wid@, 0);
    }
    match found {
        None => Err(StateError::MissingWindow(copy_window_id(wid))),
        Some(k) => {
            let mut w = ws.remove(k);
            clear_subtree_focus(&mut w.root);
            let ghost cleared = w.root@;
            match eid {
                None => {
                    ws.insert(k, w);
                    assert(windows_view(ws@) =~= with_root(wv, k as int, cleared));
                    Ok(())
                },
                Some(e) => {
                    match find_pre_path(&w.root, e.0.as_str()) {
                        None => {
                            ws.insert(k, w);
                            assert(windows_view(ws@) =~= with_root(wv, k as int, cleared));
                            Err(StateError::MissingElement(copy_element_id(e)))
                        },
                        Some(p) => {
                            let ghost pv = path_view(p@);
                            proof {
                                lemma_pre_path_valid(cleared, e@);
                                assert(pv.skip(0) =~= pv);
                            }
                            let ph = placeholder_node();
                            let mut target = swap_at(&mut w.root, &p, 0, ph);
                            let ghost t0 = target;
                            target.states.focused = true;
                            proof {
                                lemma_same_children(t0, target);
                                assert(target@ =~= focus_node(t0@));
                                lemma_set_at_valid(cleared, pv, ph@);
                            }
                            let _ = swap_at(&mut w.root, &p, 0, target);
                            proof {
                                lemma_set_at_twice(cleared, pv, ph@, target@);
                            }
                            ws.insert(k, w);
                            assert(windows_view(ws@) =~= with_root(wv, k as int, set_at(cleared, pv, focus_node(node_at(cleared, pv)))));
                            Ok(())
                        },
                    }
                },
            }
        },
    }
}

/// Applies one operation to the windows.
fn apply_diff_op(ws: &mut Vec<WindowState>, op: &DiffOp) -> (r: Result<(), StateError>)
    ensures
        (windows_view(final(ws)@), err_view(r)) == step(windows_view(old(ws)@), op@),
{
    match op {
        DiffOp::WindowAdded { window } => {
            upsert_window_exec(ws, copy_window(window));
            Ok(())
        },
        DiffOp::WindowRemoved { window_id } => remove_window_exec(ws, window_id),
        DiffOp::NodeAdded { parent_id, node } => add_node_exec(ws, parent_id, copy_node(node)),
        DiffOp::NodeRemoved { element_id } => remove_node_exec(ws, element_id),
        DiffOp::NodeReplaced { element_id, node } => replace_node_exec(ws, element_id, copy_node(node)),
        DiffOp::PropertyChanged { element_id, field, value } => property_change_exec(ws, element_id, field, value),
        DiffOp::FocusChanged { window_id, element_id } => focus_change_exec(ws, window_id, element_id),
        DiffOp::SnapshotResync { .. } => Ok(()),
    }
}

/// First position before `end` whose window id sorts after `id`.
fn upper_bound_exec(ws: &Vec<WindowState>, end: usize, id: &str) -> (r: usize)
    requires
        end <= ws@.len(),
    ensures
        r as int == upper_bound(windows_view(ws@).take(end as int), id@, 0),
        r <= end,
{
    let ghost wv = windows_view(ws@).take(end as int);
    let mut j: usize = 0;
    while j < end && !str_less(id, ws[j].window_id.0.as_str())
        invariant
            j <= end <= ws@.len(),
            wv == windows_view(ws@).take(end as int),
            upper_bound(wv, id@, 0) == upper_bound(wv, id@, j as int),
        decreases end - j,
    {
        j = j + 1;
    }
    j
}

/// Sorts windows by id; equal ids keep their order.
pub(crate) fn sort_windows_exec(ws: &mut Vec<WindowState>)
    ensures
        windows_view(final(ws)@) == sort_windows(windows_view(old(ws)@)),
{
    let ghost orig = windows_view(ws@);
    let mut i: usize = 0;
    assert(orig.take(0) =~= Seq::<crate::model::WindowV>::empty());
    while i < ws.len()
        invariant
            i <= ws@.len() == orig.len(),
            windows_view(ws@).take(i as int) == sort_windows(orig.take(i as int)),
            windows_view(ws@).skip(i as int) == orig.skip(i as int),
        decreases ws@.len() - i,
    {
        let ghost before = windows_view(ws@);
        let ghost sorted = before.take(i as int);
        assert(before[i as int] == orig[i as int]) by {
            assert(before.skip(i as int)[0] == orig.skip(i as int)[0]);
        }
        let w = ws.remove(i);
        let ghost mid = windows_view(ws@);
        assert(mid =~= before.remove(i as int));
        assert(mid.take(i as int) =~= sorted);
        let pos = upper_bound_exec(ws, i, w.window_id.0.as_str());
        ws.insert(pos, w);
        assert(windows_view(ws@) =~= mid.insert(pos as int, w@));
        proof {
            let t = orig.take(i + 1);
            assert(t.drop_last() =~= orig.take(i as int));
            assert(t.last() == w@);
            let after = windows_view(ws@);
            assert forall|j: int| 0 <= j < i + 1 implies #[trigger] after.take(i + 1)[j] == mid.take(i as int).insert(pos as int, w@)[j] by {
                if j < pos {
                } else if j == pos {
                } else {
                    assert(after[j] == mid[j - 1]);
                }
            }
            assert(after.take(i + 1) =~= mid.take(i as int).insert(pos as int, w@));
            assert forall|j: int| 0 <= j < after.len() - (i + 1) implies #[trigger] after.skip(i + 1)[j] == orig.skip(i + 1)[j] by {
                assert(after[i + 1 + j] == mid[i + j]);
                assert(mid[i + j] == before[i + 1 + j]);
                assert(before.skip(i as int)[1 + j] == orig.skip(i as int)[1 + j]);
            }
            assert(after.skip(i + 1) =~= orig.skip(i + 1));
        }
        i = i + 1;
    }
    assert(windows_view(ws@).take(ws@.len() as int) =~= windows_view(ws@));
    assert(orig.take(orig.len() as int) =~= orig);
}

/// The resync reason text for a stale base revision.
fn stale_reason_text(expected: u64, actual: u64) -> (r: String)
    ensures
        r@ == stale_reason(expected, actual),
{
    let mut t = String::from_str("expected base rev ");
    let e = u64_to_decimal(expected);
    t.append(e.as_str());
    t.append(", got ");
    let a = u64_to_decimal(actual);
    t.append(a.as_str());
    t
}

/// The reason of the first resync operation.
fn find_first_resync(ops: &Vec<DiffOp>) -> (r: Option<String>)
    ensures
        crate::text::opt_view(r) == first_resync(ops@.map_values(|o: DiffOp| o@), 0),
{
    let ghost ov = ops@.map_values(|o: DiffOp| o@);
    let mut i: usize = 0;
    while i < ops.len()
        invariant
            i <= ops@.len(),
            ov == ops@.map_values(|o: DiffOp| o@),
            first_resync(ov, 0) == first_resync(ov, i as int),
        decreases ops@.len() - i,
    {
        if let DiffOp::SnapshotResync { reason } = &ops[i] {
            return Some(reason.clone());
        }
        i = i + 1;
    }
    None
}

/// Applies operations in order, stopping at the first error.
fn run_ops_exec(ws: &mut Vec<WindowState>, ops: &Vec<DiffOp>) -> (r: Result<(), StateError>)
    ensures
        (windows_view(final(ws)@), err_view(r)) == run_ops(
            windows_view(old(ws)@),
            ops@.map_values(|o: DiffOp| o@),
        ),
{
    let ghost ov = ops@.map_values(|o: DiffOp| o@);
    let ghost w0 = windows_view(ws@);
    let mut i: usize = 0;
    assert(ov.skip(0) =~= ov);
    while i < ops.len()
        invariant
            i <= ops@.len() == ov.len(),
            ov == ops@.map_values(|o: DiffOp| o@),
            w0 == windows_view(old(ws)@),
            run_ops(w0, ov) == run_ops(windows_view(ws@), ov.skip(i as int)),
        decreases ops@.len() - i,
    {
        assert(ov.skip(i as int)[0] == ov[i as int]);
        let res = apply_diff_op(ws, &ops[i]);
        if res.is_err() {
            return res;
        }
        assert(ov.skip(i as int).drop_first() =~= ov.skip(i + 1));
        i = i + 1;
    }
    assert(ov.skip(i as int) =~= Seq::<DiffOpV>::empty());
    Ok(())
}

/// Authoritative UI state of one session: the last snapshot with every
/// accepted diff applied, its revision, and why a resync is needed, if it is.
#[derive(Debug)]
pub struct UiStateStore {
    snapshot: Option<UiSnapshot>,
    rev: u64,
    resync_required: Option<String>,
}

impl View for UiStateStore {
    type V = StoreV;

    closed spec fn view(&self) -> StoreV {
        StoreV {
            snapshot: match self.snapshot {
                Some(s) => Some(s@),
                None => None,
            },
            rev: self.rev,
            resync: crate::text::opt_view(self.resync_required),
        }
    }
}

impl Default for UiStateStore {
    fn default() -> (r: Self)
        ensures
            r@ == (StoreV { snapshot: None, rev: 0, resync: None }),
    {
        UiStateStore { snapshot: None, rev: 0, resync_required: None }
    }
}

impl UiStateStore {
    /// The current revision.
    pub fn revision(&self) -> (r: u64)
        ensures
            r == self@.rev,
    {
        self.rev
    }

    /// The current snapshot, if one was received.
    pub fn snapshot(&self) -> (r: Option<&UiSnapshot>)
        ensures
            match r {
                Some(s) => self@.snapshot == Some(s@),
                None => self@.snapshot is None,
            },
    {
        self.snapshot.as_ref()
    }

    /// Why the client must resync, if it must.
    pub fn resync_reason(&self) -> (r: Option<&str>)
        ensures
            match r {
                Some(s) => self@.resync == Some(s@),
                None => self@.resync is None,
            },
    {
        match &self.resync_required {
            Some(s) => Some(s.as_str()),
            None => None,
        }
    }

    /// Takes a full snapshot: its revision becomes current and no resync is pending.
    pub fn replace_snapshot(&mut self, snapshot: UiSnapshot)
        ensures
            final(self)@ == (StoreV { snapshot: Some(snapshot@), rev: snapshot.rev, resync: None }),
    {
        self.rev = snapshot.rev;
        self.snapshot = Some(snapshot);
        self.resync_required = None;
    }

    /// Records why the client must resync.
    pub fn mark_resync_required(&mut self, reason: &str)
        ensures
            final(self)@ == (StoreV { resync: Some(reason@), ..old(self)@ }),
    {
        self.resync_required = Some(String::from_str(reason));
    }

    /// Applies a diff batch (see `apply_diff_spec` for exactly what changes).
    pub fn apply_diff(&mut self, diff: &UiDiffBatch) -> (r: Result<(), StateError>)
        ensures
            (final(self)@, err_view(r)) == apply_diff_spec(old(self)@, diff@),
    {
        if self.snapshot.is_none() {
            return Err(StateError::MissingSnapshot);
        }
        if diff.base_rev != self.rev {
            let reason = stale_reason_text(self.rev, diff.base_rev);
            self.resync_required = Some(reason);
            return Err(StateError::StaleDiff { expected_base_rev: self.rev, actual_base_rev: diff.base_rev });
        }
        if diff.new_rev <= diff.base_rev {
            self.resync_required = Some(String::from_str("non-monotonic diff revision"));
            return Err(StateError::NonMonotonicDiff { current_rev: self.rev, next_rev: diff.new_rev });
        }
        if let Some(reason) = find_first_resync(&diff.ops) {
            self.resync_required = Some(reason);
        }
        let mut snap = self.snapshot.take().unwrap();
        let res = run_ops_exec(&mut snap.windows, &diff.ops);
        if let Err(e) = res {
            self.snapshot = Some(snap);
            return Err(e);
        }
        snap.rev = diff.new_rev;
        snap.captured_at_unix_ms = diff.emitted_at_unix_ms;
        sort_windows_exec(&mut snap.windows);
        self.snapshot = Some(snap);
        self.rev = diff.new_rev;
        Ok(())
    }
}


/// The text of a state error, as the daemon reports it.
pub open spec fn state_error_message(e: StateErrorV) -> Seq<char> {
    match e {
        StateErrorV::MissingSnapshot => "cannot apply diff before initial snapshot"@,
        StateErrorV::StaleDiff { expected_base_rev, actual_base_rev } => "diff base revision mismatch: expected "@
            + decimal(expected_base_rev as nat) + ", got "@ + decimal(actual_base_rev as nat),
        StateErrorV::NonMonotonicDiff { current_rev, next_rev } => "diff revision is not monotonic: current "@
            + decimal(current_rev as nat) + ", next "@ + decimal(next_rev as nat),
        StateErrorV::MissingWindow(w) => "diff references unknown window `"@ + w + "`"@,
        StateErrorV::MissingElement(x) => "diff references unknown element `"@ + x + "`"@,
        StateErrorV::InvalidPropertyUpdate { field } => "diff contains invalid property update for `"@ + field + "`"@,
    }
}

/// `prefix`, then the decimal digits of `a`, then `middle`, then those of `b`.
fn two_numbers(prefix: &str, a: u64, middle: &str, b: u64) -> (r: String)
    ensures
        r@ == prefix@ + decimal(a as nat) + middle@ + decimal(b as nat),
{
    let mut t = String::from_str(prefix);
    let x = u64_to_decimal(a);
    t.append(x.as_str());
    t.append(middle);
    let y = u64_to_decimal(b);
    t.append(y.as_str());
    t
}

/// `prefix`, then `name` in backquotes.
fn quoted(prefix: &str, name: &str) -> (r: String)
    ensures
        r@ == prefix@ + name@ + "`"@,
{
    let mut t = String::from_str(prefix);
    t.append(name);
    t.append("`");
    t
}

impl StateError {
    /// The error's text.
    pub fn message(&self) -> (r: String)
        ensures
            r@ == state_error_message(self@),
    {
        match self {
            StateError::MissingSnapshot => String::from_str("cannot apply diff before initial snapshot"),
            StateError::StaleDiff { expected_base_rev, actual_base_rev } => two_numbers(
                "diff base revision mismatch: expected ",
                *expected_base_rev,
                ", got ",
                *actual_base_rev,
            ),
            StateError::NonMonotonicDiff { current_rev, next_rev } => two_numbers(
                "diff revision is not monotonic: current ",
                *current_rev,
                ", next ",
                *next_rev,
            ),
            StateError::MissingWindow(w) => quoted("diff references unknown window `", w.0.as_str()),
            StateError::MissingElement(x) => quoted("diff references unknown element `", x.0.as_str()),
            StateError::InvalidPropertyUpdate { field } => quoted(
                "diff contains invalid property update for `",
                field.as_str(),
            ),
        }
    }
}

} // verus!
