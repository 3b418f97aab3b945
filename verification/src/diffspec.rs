//! What applying a diff does to a snapshot, stated over views.
//!
//! Operations apply in order and the first failing one stops the batch;
//! what the earlier operations changed stays changed.
use vstd::prelude::*;

use crate::decimal::decimal;
use crate::floatbits::{narrow_f64, round_to_f32, widen_f32};
use crate::model::{DiffOpV, DiffV, NodeV, PropertyValueV, SnapshotV, WindowV};
use crate::protocol::ElementStates;
use crate::text::{
    lemma_seq_less_asymmetric, lemma_seq_less_irreflexive, lemma_seq_less_total,
    lemma_seq_less_transitive, seq_less,
};
use vstd::seq_lib::{to_multiset_build, to_multiset_insert};
use crate::tree::{clear_focus, first_index, level_path, node_at, pre_path, remove_at, reparent, set_at};

verus! {

/// View of a state error.
pub enum StateErrorV {
    MissingSnapshot,
    StaleDiff { expected_base_rev: u64, actual_base_rev: u64 },
    NonMonotonicDiff { current_rev: u64, next_rev: u64 },
    MissingWindow(Seq<char>),
    MissingElement(Seq<char>),
    InvalidPropertyUpdate { field: Seq<char> },
}

/// First window at or after `i` with id `id`.
pub open spec fn window_index(ws: Seq<WindowV>, id: Seq<char>, i: int) -> Option<int>
    decreases ws.len() - i,
{
    if i < 0 || i >= ws.len() {
        None
    } else if ws[i].window_id == id {
        Some(i)
    } else {
        window_index(ws, id, i + 1)
    }
}

/// First window at or after `i` whose tree holds `id` (root included).
pub open spec fn pre_window(ws: Seq<WindowV>, id: Seq<char>, i: int) -> Option<int>
    decreases ws.len() - i,
{
    if i < 0 || i >= ws.len() {
        None
    } else if pre_path(ws[i].root, id) is Some {
        Some(i)
    } else {
        pre_window(ws, id, i + 1)
    }
}

/// First window at or after `i` holding `id` below its root.
pub open spec fn level_window(ws: Seq<WindowV>, id: Seq<char>, i: int) -> Option<int>
    decreases ws.len() - i,
{
    if i < 0 || i >= ws.len() {
        None
    } else if level_path(ws[i].root, id) is Some {
        Some(i)
    } else {
        level_window(ws, id, i + 1)
    }
}

/// First window at or after `i` whose root is `id` or holds `id` below it.
pub open spec fn replace_window(ws: Seq<WindowV>, id: Seq<char>, i: int) -> Option<int>
    decreases ws.len() - i,
{
    if i < 0 || i >= ws.len() {
        None
    } else if ws[i].root.element_id == id || level_path(ws[i].root, id) is Some {
        Some(i)
    } else {
        replace_window(ws, id, i + 1)
    }
}

/// Replaces the window with the same id, or appends a new one.
pub open spec fn upsert_window(ws: Seq<WindowV>, w: WindowV) -> Seq<WindowV> {
    match window_index(ws, w.window_id, 0) {
        Some(k) => ws.update(k, w),
        None => ws.push(w),
    }
}

/// `parent` with `node` (re-parented under it) replacing the child with the
/// same id, or appended as its last child.
pub open spec fn add_child(parent: NodeV, node: NodeV) -> NodeV {
    let c = reparent(node, Some(parent.element_id));
    match first_index(parent.children, c.element_id, 0) {
        Some(k) => NodeV { children: parent.children.update(k, c), ..parent },
        None => NodeV { children: parent.children.push(c), ..parent },
    }
}

/// First property entry at or after `i` with key `k`.
pub open spec fn prop_index(ps: Seq<(Seq<char>, PropertyValueV)>, k: Seq<char>, i: int) -> Option<int>
    decreases ps.len() - i,
{
    if i < 0 || i >= ps.len() {
        None
    } else if ps[i].0 == k {
        Some(i)
    } else {
        prop_index(ps, k, i + 1)
    }
}

/// First position at or after `i` whose key sorts after `k` (or the end).
pub open spec fn prop_slot(ps: Seq<(Seq<char>, PropertyValueV)>, k: Seq<char>, i: int) -> int
    decreases ps.len() - i,
{
    if i < 0 || i >= ps.len() {
        ps.len() as int
    } else if seq_less(k, ps[i].0) {
        i
    } else {
        prop_slot(ps, k, i + 1)
    }
}

/// Sets property `k` to `v`: in place when present, else at its sorted position.
pub open spec fn prop_insert(ps: Seq<(Seq<char>, PropertyValueV)>, k: Seq<char>, v: PropertyValueV) -> Seq<(Seq<char>, PropertyValueV)> {
    match prop_index(ps, k, 0) {
        Some(i) => ps.update(i, (k, v)),
        None => ps.insert(prop_slot(ps, k, 0), (k, v)),
    }
}

/// An optional string from a property value: a string, or null for none.
pub open spec fn opt_string_value(v: PropertyValueV) -> Option<Option<Seq<char>>> {
    match v {
        PropertyValueV::Str(s) => Some(Some(s)),
        PropertyValueV::Null => Some(None),
        _ => None,
    }
}

/// The stored confidence for a numeric value: the value as a single, widened.
pub open spec fn confidence_value(v: PropertyValueV) -> Option<u64> {
    match v {
        PropertyValueV::F64Bits(b) => Some(widen_f32(narrow_f64(b as nat)) as u64),
        PropertyValueV::I64(x) => Some(
            widen_f32(round_to_f32(x < 0, (if x < 0 { -(x as int) } else { x as int }) as nat, 0)) as u64,
        ),
        _ => None,
    }
}

/// A boolean from a property value.
pub open spec fn bool_value(v: PropertyValueV) -> Option<bool> {
    match v {
        PropertyValueV::Bool(b) => Some(b),
        _ => None,
    }
}

/// The states with one flag changed, named by its field (`states.<flag>`).
pub open spec fn set_state(s: ElementStates, name: Seq<char>, b: bool) -> ElementStates {
    if name == "states.enabled"@ {
        ElementStates { enabled: b, ..s }
    } else if name == "states.visible"@ {
        ElementStates { visible: b, ..s }
    } else if name == "states.focused"@ {
        ElementStates { focused: b, ..s }
    } else if name == "states.selected"@ {
        ElementStates { selected: b, ..s }
    } else if name == "states.expanded"@ {
        ElementStates { expanded: b, ..s }
    } else {
        ElementStates { toggled: b, ..s }
    }
}

/// Whether `field` names one of the boolean states (`states.<name>`).
pub open spec fn is_state_field(field: Seq<char>) -> bool {
    field == "states.enabled"@ || field == "states.visible"@ || field == "states.focused"@
        || field == "states.selected"@ || field == "states.expanded"@ || field == "states.toggled"@
}

/// The node after setting `field` to `v`; `None` when the value does not fit the field.
pub open spec fn set_field(n: NodeV, field: Seq<char>, v: PropertyValueV) -> Option<NodeV> {
    if field == "name"@ {
        match opt_string_value(v) {
            Some(x) => Some(NodeV { name: x, ..n }),
            None => None,
        }
    } else if field == "class_name"@ {
        match opt_string_value(v) {
            Some(x) => Some(NodeV { class_name: x, ..n }),
            None => None,
        }
    } else if field == "automation_id"@ {
        match opt_string_value(v) {
            Some(x) => Some(NodeV { automation_id: x, ..n }),
            None => None,
        }
    } else if field == "control_type"@ {
        match v {
            PropertyValueV::Str(s) => Some(NodeV { control_type: s, ..n }),
            _ => None,
        }
    } else if field == "native_window_handle"@ {
        match v {
            PropertyValueV::I64(x) => if x >= 0 {
                Some(NodeV { native_window_handle: Some(x as u64), ..n })
            } else {
                None
            },
            PropertyValueV::Null => Some(NodeV { native_window_handle: None, ..n }),
            _ => None,
        }
    } else if field == "bounds"@ {
        match v {
            PropertyValueV::Rect(r) => Some(NodeV { bounds: r, ..n }),
            _ => None,
        }
    } else if field == "confidence"@ {
        match confidence_value(v) {
            Some(b) => Some(NodeV { confidence_bits: b, ..n }),
            None => None,
        }
    } else if is_state_field(field) {
        match bool_value(v) {
            Some(b) => Some(NodeV { states: set_state(n.states, field, b), ..n }),
            None => None,
        }
    } else {
        Some(NodeV { properties: prop_insert(n.properties, field, v), ..n })
    }
}

/// Setting a state flag from a boolean always succeeds; the named flag
/// takes the value, every other flag and everything else about the node
/// stays as it was.
pub proof fn lemma_state_flag_update(n: NodeV, field: Seq<char>, b: bool)
    requires
        field == "states.enabled"@ || field == "states.visible"@ || field == "states.focused"@ || field == "states.selected"@ || field == "states.expanded"@ || field == "states.toggled"@,
    ensures
        set_field(n, field, PropertyValueV::Bool(b)) is Some,
        set_field(n, field, PropertyValueV::Bool(b)).unwrap() == (NodeV { states: set_field(n, field, PropertyValueV::Bool(b)).unwrap().states, ..n }),
        set_field(n, field, PropertyValueV::Bool(b)).unwrap().states.enabled == (if field == "states.enabled"@ { b } else { n.states.enabled }),
        set_field(n, field, PropertyValueV::Bool(b)).unwrap().states.visible == (if field == "states.visible"@ { b } else { n.states.visible }),
        set_field(n, field, PropertyValueV::Bool(b)).unwrap().states.focused == (if field == "states.focused"@ { b } else { n.states.focused }),
        set_field(n, field, PropertyValueV::Bool(b)).unwrap().states.selected == (if field == "states.selected"@ { b } else { n.states.selected }),
        set_field(n, field, PropertyValueV::Bool(b)).unwrap().states.expanded == (if field == "states.expanded"@ { b } else { n.states.expanded }),
        set_field(n, field, PropertyValueV::Bool(b)).unwrap().states.toggled == (if field == "states.toggled"@ { b } else { n.states.toggled }),
{
    assert("states.enabled"@.len() == 14 && "states.enabled"@[7] == 'e') by { reveal_strlit("states.enabled"); }
    assert("states.visible"@.len() == 14 && "states.visible"@[7] == 'v') by { reveal_strlit("states.visible"); }
    assert("states.focused"@.len() == 14 && "states.focused"@[7] == 'f') by { reveal_strlit("states.focused"); }
    assert("states.selected"@.len() == 15 && "states.selected"@[7] == 's') by { reveal_strlit("states.selected"); }
    assert("states.expanded"@.len() == 15 && "states.expanded"@[7] == 'e') by { reveal_strlit("states.expanded"); }
    assert("states.toggled"@.len() == 14 && "states.toggled"@[7] == 't') by { reveal_strlit("states.toggled"); }
    assert("name"@.len() == 4) by { reveal_strlit("name"); }
    assert("class_name"@.len() == 10) by { reveal_strlit("class_name"); }
    assert("automation_id"@.len() == 13) by { reveal_strlit("automation_id"); }
    assert("control_type"@.len() == 12) by { reveal_strlit("control_type"); }
    assert("native_window_handle"@.len() == 20) by { reveal_strlit("native_window_handle"); }
    assert("bounds"@.len() == 6) by { reveal_strlit("bounds"); }
    assert("confidence"@.len() == 10) by { reveal_strlit("confidence"); }
}

/// Setting a text field from a string sets exactly that field; setting a
/// node's bounds from a rectangle sets exactly its bounds; a boolean never
/// fits them.
pub proof fn lemma_text_and_bounds_update(n: NodeV, t: Seq<char>, r: crate::protocol::Rect, b: bool)
    ensures
        set_field(n, "name"@, PropertyValueV::Str(t)) == Some(NodeV { name: Some(t), ..n }),
        set_field(n, "class_name"@, PropertyValueV::Str(t)) == Some(NodeV { class_name: Some(t), ..n }),
        set_field(n, "automation_id"@, PropertyValueV::Str(t)) == Some(NodeV { automation_id: Some(t), ..n }),
        set_field(n, "control_type"@, PropertyValueV::Str(t)) == Some(NodeV { control_type: t, ..n }),
        set_field(n, "bounds"@, PropertyValueV::Rect(r)) == Some(NodeV { bounds: r, ..n }),
        set_field(n, "name"@, PropertyValueV::Null) == Some(NodeV { name: None, ..n }),
        set_field(n, "bounds"@, PropertyValueV::Bool(b)) is None,
        set_field(n, "control_type"@, PropertyValueV::Bool(b)) is None,
{
    assert("name"@.len() == 4) by { reveal_strlit("name"); }
    assert("class_name"@.len() == 10 && "class_name"@[0] == 'c') by { reveal_strlit("class_name"); }
    assert("automation_id"@.len() == 13) by { reveal_strlit("automation_id"); }
    assert("control_type"@.len() == 12) by { reveal_strlit("control_type"); }
    assert("native_window_handle"@.len() == 20) by { reveal_strlit("native_window_handle"); }
    assert("bounds"@.len() == 6) by { reveal_strlit("bounds"); }
}

/// The node with its focused flag set.
pub open spec fn focus_node(n: NodeV) -> NodeV {
    NodeV { states: ElementStates { focused: true, ..n.states }, ..n }
}

/// Window `k` with a new root.
pub open spec fn with_root(ws: Seq<WindowV>, k: int, root: NodeV) -> Seq<WindowV> {
    ws.update(k, WindowV { root, ..ws[k] })
}

/// One operation: the windows after it, and the error it failed with, if any.
pub open spec fn step(ws: Seq<WindowV>, op: DiffOpV) -> (Seq<WindowV>, Option<StateErrorV>) {
    match op {
        DiffOpV::WindowAdded { window } => (upsert_window(ws, window), None),
        DiffOpV::WindowRemoved { window_id } => match window_index(ws, window_id, 0) {
            Some(k) => (ws.remove(k), None),
            None => (ws, Some(StateErrorV::MissingWindow(window_id))),
        },
        DiffOpV::NodeAdded { parent_id, node } => match pre_window(ws, parent_id, 0) {
            Some(k) => {
                let root = ws[k].root;
                let p = pre_path(root, parent_id).unwrap();
                (with_root(ws, k, set_at(root, p, add_child(node_at(root, p), node))), None)
            },
            None => (ws, Some(StateErrorV::MissingElement(parent_id))),
        },
        DiffOpV::NodeRemoved { element_id } => match level_window(ws, element_id, 0) {
            Some(k) => {
                let root = ws[k].root;
                let p = level_path(root, element_id).unwrap();
                (with_root(ws, k, remove_at(root, p)), None)
            },
            None => (ws, Some(StateErrorV::MissingElement(element_id))),
        },
        DiffOpV::NodeReplaced { element_id, node } => match replace_window(ws, element_id, 0) {
            Some(k) => {
                let root = ws[k].root;
                if root.element_id == element_id {
                    (with_root(ws, k, reparent(node, None)), None)
                } else {
                    let p = level_path(root, element_id).unwrap();
                    let parent = node_at(root, p.drop_last());
                    (with_root(ws, k, set_at(root, p, reparent(node, Some(parent.element_id)))), None)
                }
            },
            None => (ws, Some(StateErrorV::MissingElement(element_id))),
        },
        DiffOpV::PropertyChanged { element_id, field, value } => match pre_window(ws, element_id, 0) {
            Some(k) => {
                let root = ws[k].root;
                let p = pre_path(root, element_id).unwrap();
                match set_field(node_at(root, p), field, value) {
                    Some(n2) => (with_root(ws, k, set_at(root, p, n2)), None),
                    None => (ws, Some(StateErrorV::InvalidPropertyUpdate { field })),
                }
            },
            None => (ws, Some(StateErrorV::MissingElement(element_id))),
        },
        DiffOpV::FocusChanged { window_id, element_id } => match window_index(ws, window_id, 0) {
            Some(k) => {
                let cleared = clear_focus(ws[k].root);
                match element_id {
                    None => (with_root(ws, k, cleared), None),
                    Some(e) => match pre_path(cleared, e) {
                        Some(p) => (with_root(ws, k, set_at(cleared, p, focus_node(node_at(cleared, p)))), None),
                        None => (with_root(ws, k, cleared), Some(StateErrorV::MissingElement(e))),
                    },
                }
            },
            None => (ws, Some(StateErrorV::MissingWindow(window_id))),
        },
        DiffOpV::SnapshotResync { .. } => (ws, None),
    }
}

/// Applies operations in order, stopping at the first error.
pub open spec fn run_ops(ws: Seq<WindowV>, ops: Seq<DiffOpV>) -> (Seq<WindowV>, Option<StateErrorV>)
    decreases ops.len(),
{
    if ops.len() == 0 {
        (ws, None)
    } else {
        let (ws1, e) = step(ws, ops[0]);
        if e is Some {
            (ws1, e)
        } else {
            run_ops(ws1, ops.drop_first())
        }
    }
}

/// The reason of the first resync operation at or after `i`.
pub open spec fn first_resync(ops: Seq<DiffOpV>, i: int) -> Option<Seq<char>>
    decreases ops.len() - i,
{
    if i < 0 || i >= ops.len() {
        None
    } else {
        match ops[i] {
            DiffOpV::SnapshotResync { reason } => Some(reason),
            _ => first_resync(ops, i + 1),
        }
    }
}

/// First position at or after `i` whose window id sorts after `id` (or the end).
pub open spec fn upper_bound(ws: Seq<WindowV>, id: Seq<char>, i: int) -> int
    decreases ws.len() - i,
{
    if i < 0 || i >= ws.len() {
        ws.len() as int
    } else if seq_less(id, ws[i].window_id) {
        i
    } else {
        upper_bound(ws, id, i + 1)
    }
}

/// Windows sorted by id, equal ids keeping their order (insertion sort).
pub open spec fn sort_windows(ws: Seq<WindowV>) -> Seq<WindowV>
    decreases ws.len(),
{
    if ws.len() == 0 {
        ws
    } else {
        let s = sort_windows(ws.drop_last());
        s.insert(upper_bound(s, ws.last().window_id, 0), ws.last())
    }
}

/// Window ids never decrease along the sequence.
pub open spec fn windows_sorted(ws: Seq<WindowV>) -> bool {
    forall|i: int, j: int| 0 <= i < j < ws.len() ==> !seq_less(#[trigger] ws[j].window_id, #[trigger] ws[i].window_id)
}


/// View of a state store: the snapshot, the revision, the pending resync reason.
#[verifier::ext_equal]
pub struct StoreV {
    pub snapshot: Option<SnapshotV>,
    pub rev: u64,
    pub resync: Option<Seq<char>>,
}

/// The resync reason recorded for a diff whose base is not the current revision.
pub open spec fn stale_reason(expected: u64, actual: u64) -> Seq<char> {
    "expected base rev "@ + decimal(expected as nat) + ", got "@ + decimal(actual as nat)
}

/// The store after a diff, and the error the diff was refused with, if any.
///
/// Without a snapshot nothing changes. A diff not based on the current
/// revision, or not moving it forward, only records a resync reason. Otherwise
/// the first resync operation's reason is recorded, the operations run in
/// order, and when all succeed the snapshot takes the diff's revision and
/// time and its windows are sorted by id; when one fails, the windows keep
/// what the operations before it (and the failing one, for a focus change)
/// did, and the revision stays.
pub open spec fn apply_diff_spec(st: StoreV, d: DiffV) -> (StoreV, Option<StateErrorV>) {
    match st.snapshot {
        None => (st, Some(StateErrorV::MissingSnapshot)),
        Some(s) => if d.base_rev != st.rev {
            (
                StoreV { resync: Some(stale_reason(st.rev, d.base_rev)), ..st },
                Some(StateErrorV::StaleDiff { expected_base_rev: st.rev, actual_base_rev: d.base_rev }),
            )
        } else if d.new_rev <= d.base_rev {
            (
                StoreV { resync: Some("non-monotonic diff revision"@), ..st },
                Some(StateErrorV::NonMonotonicDiff { current_rev: st.rev, next_rev: d.new_rev }),
            )
        } else {
            let resync = match first_resync(d.ops, 0) {
                Some(r) => Some(r),
                None => st.resync,
            };
            let (ws, e) = run_ops(s.windows, d.ops);
            match e {
                Some(err) => (
                    StoreV { snapshot: Some(SnapshotV { windows: ws, ..s }), rev: st.rev, resync },
                    Some(err),
                ),
                None => (
                    StoreV {
                        snapshot: Some(
                            SnapshotV {
                                rev: d.new_rev,
                                captured_at_unix_ms: d.emitted_at_unix_ms,
                                windows: sort_windows(ws),
                                ..s
                            },
                        ),
                        rev: d.new_rev,
                        resync,
                    },
                    None,
                ),
            }
        },
    }
}

/// A found window position is in range and holds the id.
pub proof fn lemma_window_index(ws: Seq<WindowV>, id: Seq<char>, i: int)
    requires
        0 <= i,
    ensures
        window_index(ws, id, i) matches Some(k) ==> i <= k < ws.len() && ws[k].window_id == id,
    decreases ws.len() - i,
{
    if 0 <= i < ws.len() && ws[i].window_id != id {
        lemma_window_index(ws, id, i + 1);
    }
}

/// A window found by pre-order search is in range and holds the id.
pub proof fn lemma_pre_window(ws: Seq<WindowV>, id: Seq<char>, i: int)
    requires
        0 <= i,
    ensures
        pre_window(ws, id, i) matches Some(k) ==> i <= k < ws.len() && pre_path(ws[k].root, id) is Some,
    decreases ws.len() - i,
{
    if 0 <= i < ws.len() && !(pre_path(ws[i].root, id) is Some) {
        lemma_pre_window(ws, id, i + 1);
    }
}

/// A window found by level-first search is in range and holds the id below its root.
pub proof fn lemma_level_window(ws: Seq<WindowV>, id: Seq<char>, i: int)
    requires
        0 <= i,
    ensures
        level_window(ws, id, i) matches Some(k) ==> i <= k < ws.len() && level_path(ws[k].root, id) is Some,
    decreases ws.len() - i,
{
    if 0 <= i < ws.len() && !(level_path(ws[i].root, id) is Some) {
        lemma_level_window(ws, id, i + 1);
    }
}

/// A window found for a replacement is in range.
pub proof fn lemma_replace_window(ws: Seq<WindowV>, id: Seq<char>, i: int)
    requires
        0 <= i,
    ensures
        replace_window(ws, id, i) matches Some(k) ==> i <= k < ws.len(),
    decreases ws.len() - i,
{
    if 0 <= i < ws.len() && !(ws[i].root.element_id == id || level_path(ws[i].root, id) is Some) {
        lemma_replace_window(ws, id, i + 1);
    }
}

/// What `upper_bound` finds: everything before it sorts no later than `id`,
/// and the element at it (if any) sorts after `id`.
pub proof fn lemma_upper_bound(s: Seq<WindowV>, id: Seq<char>, i: int)
    requires
        0 <= i <= s.len(),
    ensures
        i <= upper_bound(s, id, i) <= s.len(),
        forall|j: int| i <= j < upper_bound(s, id, i) ==> !seq_less(id, #[trigger] s[j].window_id),
        upper_bound(s, id, i) < s.len() ==> seq_less(id, s[upper_bound(s, id, i)].window_id),
    decreases s.len() - i,
{
    if i < s.len() && !seq_less(id, s[i].window_id) {
        lemma_upper_bound(s, id, i + 1);
    }
}

/// Sorting windows yields them ordered by id, with the same windows.
pub proof fn lemma_sort_windows(ws: Seq<WindowV>)
    ensures
        windows_sorted(sort_windows(ws)),
        sort_windows(ws).to_multiset() == ws.to_multiset(),
        sort_windows(ws).len() == ws.len(),
    decreases ws.len(),
{
    if ws.len() > 0 {
        let s = sort_windows(ws.drop_last());
        lemma_sort_windows(ws.drop_last());
        let w = ws.last();
        let u = upper_bound(s, w.window_id, 0);
        lemma_upper_bound(s, w.window_id, 0);
        let r = s.insert(u, w);
        assert forall|i: int, j: int| 0 <= i < j < r.len() implies !seq_less(#[trigger] r[j].window_id, #[trigger] r[i].window_id) by {
            if j < u {
                assert(r[i] == s[i] && r[j] == s[j]);
            } else if j == u {
                assert(r[i] == s[i]);
                assert(!seq_less(w.window_id, s[i].window_id));
                lemma_seq_less_total(w.window_id, s[i].window_id);
                if seq_less(w.window_id, s[i].window_id) {
                } else if w.window_id == s[i].window_id {
                    lemma_seq_less_irreflexive(w.window_id);
                } else {
                    lemma_seq_less_asymmetric(s[i].window_id, w.window_id);
                }
            } else if i == u {
                // r[j] == s[j - 1], and s[u] sorts after w, so s[j - 1] does too
                assert(r[j] == s[j - 1]);
                assert(seq_less(w.window_id, s[u].window_id));
                if j - 1 > u {
                    assert(!seq_less(s[j - 1].window_id, s[u].window_id));
                    lemma_seq_less_total(s[j - 1].window_id, s[u].window_id);
                    if seq_less(s[u].window_id, s[j - 1].window_id) {
                        lemma_seq_less_transitive(w.window_id, s[u].window_id, s[j - 1].window_id);
                    }
                }
                lemma_seq_less_asymmetric(w.window_id, s[j - 1].window_id);
            } else if i < u {
                assert(r[i] == s[i] && r[j] == s[j - 1]);
            } else {
                assert(r[i] == s[i - 1] && r[j] == s[j - 1]);
            }
        }
        to_multiset_insert(s, u, w);
        assert(ws =~= ws.drop_last().push(w));
        to_multiset_build(ws.drop_last(), w);
    }
}

/// A diff is refused without a snapshot, and then changes nothing.
pub proof fn lemma_diff_needs_snapshot(st: StoreV, d: DiffV)
    requires
        st.snapshot is None,
    ensures
        apply_diff_spec(st, d) == (st, Some(StateErrorV::MissingSnapshot)),
{
}

/// Revisions: an accepted diff moves the store to the diff's new revision,
/// which is past the old one; a refused diff leaves the revision where it was.
pub proof fn lemma_diff_revision(st: StoreV, d: DiffV)
    ensures
        apply_diff_spec(st, d).1 is None ==> (apply_diff_spec(st, d).0.rev == d.new_rev && d.new_rev > st.rev
            && (apply_diff_spec(st, d).0.snapshot matches Some(s) && s.rev == d.new_rev)),
        apply_diff_spec(st, d).1 is Some ==> apply_diff_spec(st, d).0.rev == st.rev,
{
}

/// A diff whose base is not the current revision is refused, the snapshot is
/// kept as it was, and the store asks for a resync.
pub proof fn lemma_stale_diff_marks_resync(st: StoreV, d: DiffV)
    requires
        st.snapshot is Some,
        d.base_rev != st.rev,
    ensures
        apply_diff_spec(st, d).0.snapshot == st.snapshot,
        apply_diff_spec(st, d).0.resync == Some(stale_reason(st.rev, d.base_rev)),
        apply_diff_spec(st, d).1 == Some(StateErrorV::StaleDiff { expected_base_rev: st.rev, actual_base_rev: d.base_rev }),
{
}

/// After an accepted diff the snapshot's windows are ordered by id.
pub proof fn lemma_accepted_diff_sorts_windows(st: StoreV, d: DiffV)
    requires
        apply_diff_spec(st, d).1 is None,
    ensures
        (apply_diff_spec(st, d).0.snapshot matches Some(s) && windows_sorted(s.windows)),
{
    let s = st.snapshot->0;
    lemma_sort_windows(run_ops(s.windows, d.ops).0);
}

} // verus!
