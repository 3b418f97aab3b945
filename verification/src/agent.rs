//! The daemon's decisions over a session's snapshot: which window or element
//! a target names, whether a wait condition holds, when an action's outcome
//! carries a snapshot as evidence, and how deep a returned tree goes.
use vstd::prelude::*;

use crate::model::{empty_node_v, lemma_children_view, nodes_view, windows_view, LocatorV, NodeV, SegmentV, SnapshotV, WindowLocatorV, WindowV};
use crate::payload::{action_kind_name, kind_name, KindV, TargetV};
use crate::platform::BackendActionResult;
use crate::protocol::{
    ActionId, ActionKind, ActionRequest, ActionStatus, ActionTarget, CapturePolicy, ElementNode,
    Locator, LocatorSegment, UiSnapshot, WaitCondition, WindowLocator, WindowState,
};
use crate::diffspec::{lemma_window_index, window_index};
use crate::model::DiffV;
use crate::copy::{copy_diff, copy_node, copy_snapshot, copy_window};
use crate::decimal::{decimal, u64_to_decimal};
use crate::protocol::ServerMessage;
use crate::telemetry::{AgentRuntimeState, RuntimeTelemetry};
use crate::protocol::WindowId;
use crate::protocol::{ClientMessage, DiffOp, SessionId, UiDiffBatch, WarningEvent};
use crate::registry::{registry_apply_diff, session_error_message, SessionErrorV, SessionRegistry};
use crate::state::find_window;
use crate::text::{opt_string_equal, opt_view, string_equal};
use crate::tree::{lemma_pre_path_valid, node_at, path_view, pre_path, subtree_at, valid_path, find_pre_path};

verus! {

// ---------------------------------------------------------------------
// Focus

/// Some node of the subtree has focus.
pub open spec fn has_focus(n: NodeV) -> bool
    decreases n, 1int, 0int,
{
    n.states.focused || has_focus_from(n, 0)
}

/// Some subtree among the children from position `i` on has focus.
pub open spec fn has_focus_from(n: NodeV, i: int) -> bool
    decreases n, 0int, n.children.len() - i,
{
    if i < 0 || i >= n.children.len() {
        false
    } else {
        has_focus(n.children[i]) || has_focus_from(n, i + 1)
    }
}

/// Whether some node of the subtree has focus.
pub fn subtree_has_focus(n: &ElementNode) -> (r: bool)
    ensures
        r == has_focus(n@),
    decreases n,
{
    if n.states.focused {
        return true;
    }
    proof {
        lemma_children_view(*n);
    }
    let mut i: usize = 0;
    while i < n.children.len()
        invariant
            i <= n.children@.len(),
            n@.children == nodes_view(n.children@),
            !n@.states.focused,
            has_focus(n@) == has_focus_from(n@, i as int),
        decreases n.children@.len() - i,
    {
        if subtree_has_focus(&n.children[i]) {
            return true;
        }
        i = i + 1;
    }
    false
}

/// Some window from position `i` on has focus in its tree.
pub open spec fn any_window_focused(ws: Seq<WindowV>, i: int) -> bool
    decreases ws.len() - i,
{
    if i < 0 || i >= ws.len() {
        false
    } else {
        has_focus(ws[i].root) || any_window_focused(ws, i + 1)
    }
}

// ---------------------------------------------------------------------
// Windows

/// The window has the locator's title and pid, where it gives them.
pub open spec fn window_fits(w: WindowV, l: WindowLocatorV) -> bool {
    &&& (match l.title {
        Some(t) => w.title == t,
        None => true,
    })
    &&& (match l.pid {
        Some(p) => w.pid == p,
        None => true,
    })
}

/// Position of the first window that fits the locator, from `i` on.
pub open spec fn fitting_index(ws: Seq<WindowV>, l: WindowLocatorV, i: int) -> Option<int>
    decreases ws.len() - i,
{
    if i < 0 || i >= ws.len() {
        None
    } else if window_fits(ws[i], l) {
        Some(i)
    } else {
        fitting_index(ws, l, i + 1)
    }
}

/// The window a locator names: by id when it gives one; else the first that
/// fits its title and pid when it gives either; else the only window, if
/// there is exactly one.
pub open spec fn resolved_window(ws: Seq<WindowV>, l: WindowLocatorV) -> Option<int> {
    match l.window_id {
        Some(id) => window_index(ws, id, 0),
        None => if l.title is Some || l.pid is Some {
            fitting_index(ws, l, 0)
        } else if ws.len() == 1 {
            Some(0)
        } else {
            None
        },
    }
}

/// A found fitting index is in range.
proof fn lemma_fitting_index(ws: Seq<WindowV>, l: WindowLocatorV, i: int)
    ensures
        fitting_index(ws, l, i) matches Some(k) ==> 0 <= k < ws.len(),
    decreases ws.len() - i,
{
    if 0 <= i < ws.len() && !window_fits(ws[i], l) {
        lemma_fitting_index(ws, l, i + 1);
    }
}

/// Whether a window fits the locator's title and pid.
fn fits(w: &WindowState, l: &WindowLocator) -> (r: bool)
    ensures
        r == window_fits(w@, l@),
{
    let title_ok = match &l.title {
        Some(t) => string_equal(&w.title, t),
        None => true,
    };
    let pid_ok = match l.pid {
        Some(p) => w.pid == p,
        None => true,
    };
    title_ok && pid_ok
}

/// Position among `windows` of the window a locator names (see `resolved_window`).
pub fn resolve_window_among(windows: &Vec<WindowState>, locator: &WindowLocator) -> (r: Option<usize>)
    ensures
        match r {
            Some(k) => k < windows@.len() && resolved_window(windows_view(windows@), locator@) == Some(k as int),
            None => resolved_window(windows_view(windows@), locator@) is None,
        },
{
    if let Some(id) = &locator.window_id {
        proof {
            lemma_window_index(windows_view(windows@), id@, 0);
        }
        return find_window(windows, id.0.as_str());
    }
    if locator.title.is_some() || locator.pid.is_some() {
        let ghost ws = windows_view(windows@);
        let mut i: usize = 0;
        while i < windows.len()
            invariant
                i <= windows@.len(),
                ws == windows_view(windows@),
                locator.window_id is None,
                locator.title is Some || locator.pid is Some,
                fitting_index(ws, locator@, 0) == fitting_index(ws, locator@, i as int),
            decreases windows@.len() - i,
        {
            if fits(&windows[i], locator) {
                return Some(i);
            }
            i = i + 1;
        }
        return None;
    }
    if windows.len() == 1 {
        Some(0)
    } else {
        None
    }
}

/// Position of the window a locator names (see `resolved_window`).
pub fn resolve_window(snapshot: &UiSnapshot, locator: &WindowLocator) -> (r: Option<usize>)
    ensures
        match r {
            Some(k) => k < snapshot.windows@.len() && resolved_window(snapshot@.windows, locator@) == Some(k as int),
            None => resolved_window(snapshot@.windows, locator@) is None,
        },
{
    resolve_window_among(&snapshot.windows, locator)
}


// ---------------------------------------------------------------------
// Elements

/// Path (pre-order) of the first node whose locator is `l`.
pub open spec fn locator_path(n: NodeV, l: LocatorV) -> Option<Seq<int>>
    decreases n, 2int, 0int,
{
    if n.locator == l {
        Some(Seq::empty())
    } else {
        locator_path_from(n, 0, l)
    }
}

/// Pre-order search by locator through the children from position `i` on.
pub open spec fn locator_path_from(n: NodeV, i: int, l: LocatorV) -> Option<Seq<int>>
    decreases n, 1int, n.children.len() - i,
{
    if i < 0 || i >= n.children.len() {
        None
    } else {
        match locator_path(n.children[i], l) {
            Some(q) => Some(seq![i] + q),
            None => locator_path_from(n, i + 1, l),
        }
    }
}

/// A locator path is valid.
proof fn lemma_locator_path_valid(n: NodeV, l: LocatorV)
    ensures
        locator_path(n, l) matches Some(p) ==> valid_path(n, p),
    decreases n, 2int, 0int,
{
    if n.locator != l {
        lemma_locator_path_from_valid(n, 0, l);
    }
}

/// A locator path found among the children from `i` on is valid.
proof fn lemma_locator_path_from_valid(n: NodeV, i: int, l: LocatorV)
    ensures
        locator_path_from(n, i, l) matches Some(p) ==> valid_path(n, p),
    decreases n, 1int, n.children.len() - i,
{
    if 0 <= i < n.children.len() {
        lemma_locator_path_valid(n.children[i], l);
        lemma_locator_path_from_valid(n, i + 1, l);
        if let Some(q) = locator_path(n.children[i], l) {
            let p = seq![i] + q;
            assert(p.drop_first() =~= q);
        }
    }
}

/// Whether two locator steps are equal.
fn segment_equal(a: &LocatorSegment, b: &LocatorSegment) -> (r: bool)
    ensures
        r == (a@ == b@),
{
    string_equal(&a.control_type, &b.control_type) && opt_string_equal(&a.class_name, &b.class_name)
        && opt_string_equal(&a.automation_id, &b.automation_id) && opt_string_equal(&a.name, &b.name)
        && a.sibling_ordinal == b.sibling_ordinal
}

/// Whether two locators are equal.
pub fn locator_equal(a: &Locator, b: &Locator) -> (r: bool)
    ensures
        r == (a@ == b@),
{
    if !string_equal(&a.window_fingerprint, &b.window_fingerprint) || a.path.len() != b.path.len() {
        assert(a@.path.len() == a.path@.len() && b@.path.len() == b.path@.len());
        return false;
    }
    let mut i: usize = 0;
    while i < a.path.len()
        invariant
            i <= a.path@.len(),
            a.path@.len() == b.path@.len(),
            a.window_fingerprint@ == b.window_fingerprint@,
            forall|j: int| 0 <= j < i ==> (#[trigger] a.path@[j])@ == b.path@[j]@,
        decreases a.path@.len() - i,
    {
        if !segment_equal(&a.path[i], &b.path[i]) {
            assert(a@.path[i as int] == a.path@[i as int]@);
            return false;
        }
        i = i + 1;
    }
    assert(a@.path =~= b@.path);
    true
}

/// Path (pre-order) of the first node whose locator is `l`.
pub fn find_locator_path(n: &ElementNode, l: &Locator) -> (r: Option<Vec<usize>>)
    ensures
        match r {
            Some(p) => locator_path(n@, l@) == Some(path_view(p@)),
            None => locator_path(n@, l@) is None,
        },
    decreases n,
{
    if locator_equal(&n.locator, l) {
        let r: Vec<usize> = Vec::new();
        assert(path_view(r@) =~= Seq::<int>::empty());
        return Some(r);
    }
    proof {
        lemma_children_view(*n);
    }
    let mut i: usize = 0;
    while i < n.children.len()
        invariant
            i <= n.children@.len(),
            n@.children == nodes_view(n.children@),
            n@.locator != l@,
            locator_path(n@, l@) == locator_path_from(n@, i as int, l@),
        decreases n.children@.len() - i,
    {
        match find_locator_path(&n.children[i], l) {
            Some(mut p) => {
                let ghost q = path_view(p@);
                p.insert(0, i);
                assert(path_view(p@) =~= seq![i as int] + q);
                return Some(p);
            },
            None => {},
        }
        i = i + 1;
    }
    None
}

/// The first window, from `i` on, whose tree holds a node with id `id`,
/// with the path to that node.
pub open spec fn element_by_id(ws: Seq<WindowV>, id: Seq<char>, i: int) -> Option<(int, Seq<int>)>
    decreases ws.len() - i,
{
    if i < 0 || i >= ws.len() {
        None
    } else {
        match pre_path(ws[i].root, id) {
            Some(p) => Some((i, p)),
            None => element_by_id(ws, id, i + 1),
        }
    }
}

/// The first window, from `i` on, with the locator's window fingerprint
/// whose tree holds a node with that locator, with the path to the node.
pub open spec fn element_by_locator(ws: Seq<WindowV>, l: LocatorV, i: int) -> Option<(int, Seq<int>)>
    decreases ws.len() - i,
{
    if i < 0 || i >= ws.len() {
        None
    } else if ws[i].root.locator.window_fingerprint != l.window_fingerprint {
        element_by_locator(ws, l, i + 1)
    } else {
        match locator_path(ws[i].root, l) {
            Some(p) => Some((i, p)),
            None => element_by_locator(ws, l, i + 1),
        }
    }
}

/// The element an element locator names: by id when it gives one and the
/// id is found, else by its semantic locator when it gives one.
pub open spec fn resolved_element(ws: Seq<WindowV>, element_id: Option<Seq<char>>, locator: Option<LocatorV>) -> Option<(int, Seq<int>)> {
    let by_id = match element_id {
        Some(id) => element_by_id(ws, id, 0),
        None => None,
    };
    match by_id {
        Some(x) => Some(x),
        None => match locator {
            Some(l) => element_by_locator(ws, l, 0),
            None => None,
        },
    }
}

/// The view of a found window position and path.
pub open spec fn found_view(r: Option<(usize, Vec<usize>)>) -> Option<(int, Seq<int>)> {
    match r {
        Some((k, p)) => Some((k as int, path_view(p@))),
        None => None,
    }
}

/// Found elements lie inside their window's tree.
proof fn lemma_element_by_id_valid(ws: Seq<WindowV>, id: Seq<char>, i: int)
    ensures
        element_by_id(ws, id, i) matches Some((k, p)) ==> 0 <= k < ws.len() && valid_path(ws[k].root, p),
    decreases ws.len() - i,
{
    if 0 <= i < ws.len() {
        lemma_pre_path_valid(ws[i].root, id);
        lemma_element_by_id_valid(ws, id, i + 1);
    }
}

/// Found elements lie inside their window's tree.
proof fn lemma_element_by_locator_valid(ws: Seq<WindowV>, l: LocatorV, i: int)
    ensures
        element_by_locator(ws, l, i) matches Some((k, p)) ==> 0 <= k < ws.len() && valid_path(ws[k].root, p),
    decreases ws.len() - i,
{
    if 0 <= i < ws.len() {
        lemma_locator_path_valid(ws[i].root, l);
        lemma_element_by_locator_valid(ws, l, i + 1);
    }
}

/// A resolved element lies inside its window's tree.
pub proof fn lemma_resolved_element_valid(ws: Seq<WindowV>, element_id: Option<Seq<char>>, locator: Option<LocatorV>)
    ensures
        resolved_element(ws, element_id, locator) matches Some((k, p)) ==> 0 <= k < ws.len() && valid_path(ws[k].root, p),
{
    if let Some(id) = element_id {
        lemma_element_by_id_valid(ws, id, 0);
    }
    if let Some(l) = locator {
        lemma_element_by_locator_valid(ws, l, 0);
    }
}

/// The view of an optional element id.
pub open spec fn opt_element_id_view(e: Option<crate::protocol::ElementId>) -> Option<Seq<char>> {
    match e {
        Some(x) => Some(x@),
        None => None,
    }
}

/// The view of an optional locator.
pub open spec fn opt_locator_view(l: Option<Locator>) -> Option<LocatorV> {
    match l {
        Some(x) => Some(x@),
        None => None,
    }
}

/// Position among `windows` and path of the element a locator names (see `resolved_element`).
pub fn resolve_element_among(windows: &Vec<WindowState>, element_id: &Option<crate::protocol::ElementId>, locator: &Option<Locator>) -> (r: Option<(usize, Vec<usize>)>)
    ensures
        found_view(r) == resolved_element(windows_view(windows@), opt_element_id_view(*element_id), opt_locator_view(*locator)),
{
    let ghost ws = windows_view(windows@);
    let ghost eid = opt_element_id_view(*element_id);
    let ghost loc = opt_locator_view(*locator);
    if let Some(id) = element_id {
        let mut i: usize = 0;
        while i < windows.len()
            invariant
                i <= windows@.len(),
                ws == windows_view(windows@),
                eid == opt_element_id_view(*element_id),
                loc == opt_locator_view(*locator),
                eid == Some(id@),
                element_by_id(ws, id@, 0) == element_by_id(ws, id@, i as int),
            decreases windows@.len() - i,
        {
            assert(ws[i as int].root == windows@[i as int].root@);
            if let Some(p) = find_pre_path(&windows[i].root, id.0.as_str()) {
                return Some((i, p));
            }
            i = i + 1;
        }
    }
    assert(resolved_element(ws, eid, loc) == match loc {
        Some(l) => element_by_locator(ws, l, 0),
        None => None,
    });
    if let Some(l) = locator {
        let mut i: usize = 0;
        while i < windows.len()
            invariant
                i <= windows@.len(),
                ws == windows_view(windows@),
                eid == opt_element_id_view(*element_id),
                loc == opt_locator_view(*locator),
                loc == Some(l@),
                resolved_element(ws, eid, loc) == element_by_locator(ws, l@, i as int),
            decreases windows@.len() - i,
        {
            let w = &windows[i];
            assert(ws[i as int].root == w.root@);
            if string_equal(&w.root.locator.window_fingerprint, &l.window_fingerprint) {
                if let Some(p) = find_locator_path(&w.root, l) {
                    return Some((i, p));
                }
            }
            i = i + 1;
        }
    }
    None
}

/// Window position and path of the element a locator names (see `resolved_element`).
pub fn resolve_element(snapshot: &UiSnapshot, element_id: &Option<crate::protocol::ElementId>, locator: &Option<Locator>) -> (r: Option<(usize, Vec<usize>)>)
    ensures
        found_view(r) == resolved_element(snapshot@.windows, opt_element_id_view(*element_id), opt_locator_view(*locator)),
{
    resolve_element_among(&snapshot.windows, element_id, locator)
}


// ---------------------------------------------------------------------
// Wait conditions

/// Whether `condition` holds of `target` in the snapshot `s`.
pub open spec fn wait_matches(s: Seq<WindowV>, target: TargetV, condition: WaitCondition) -> bool {
    match target {
        TargetV::Desktop => match condition {
            WaitCondition::Focused => any_window_focused(s, 0),
            WaitCondition::Gone => false,
            _ => true,
        },
        TargetV::Window(l) => match resolved_window(s, l) {
            Some(k) => match condition {
                WaitCondition::Exists => true,
                WaitCondition::Visible => s[k].root.states.visible && s[k].bounds.width > 0 && s[k].bounds.height > 0,
                WaitCondition::Enabled => s[k].root.states.enabled,
                WaitCondition::Focused => has_focus(s[k].root),
                WaitCondition::Gone => false,
            },
            None => condition is Gone,
        },
        TargetV::Element { element_id, locator } => match resolved_element(s, element_id, locator) {
            Some((k, p)) => match condition {
                WaitCondition::Exists => true,
                WaitCondition::Visible => node_at(s[k].root, p).states.visible,
                WaitCondition::Enabled => node_at(s[k].root, p).states.enabled,
                WaitCondition::Focused => node_at(s[k].root, p).states.focused,
                WaitCondition::Gone => false,
            },
            None => condition is Gone,
        },
        TargetV::Region { window_id, bounds } => {
            let present = match window_id {
                Some(id) => window_index(s, id, 0) is Some,
                None => true,
            };
            match condition {
                WaitCondition::Focused => false,
                WaitCondition::Gone => !present,
                _ => present,
            }
        },
    }
}

/// Whether some window's tree has focus.
fn any_focused(windows: &Vec<WindowState>) -> (r: bool)
    ensures
        r == any_window_focused(windows_view(windows@), 0),
{
    let ghost ws = windows_view(windows@);
    let mut i: usize = 0;
    while i < windows.len()
        invariant
            i <= windows@.len(),
            ws == windows_view(windows@),
            any_window_focused(ws, 0) == any_window_focused(ws, i as int),
        decreases windows@.len() - i,
    {
        if subtree_has_focus(&windows[i].root) {
            return true;
        }
        i = i + 1;
    }
    false
}

/// Waiting on an element that the snapshot resolves: it exists and is not
/// gone, and it is visible, enabled or focused exactly when the resolved
/// node's own state says so; an element that does not resolve is gone and
/// nothing else.
pub proof fn lemma_wait_on_element(s: Seq<WindowV>, element_id: Option<Seq<char>>, locator: Option<LocatorV>)
    ensures
        ({
            let t = TargetV::Element { element_id, locator };
            match resolved_element(s, element_id, locator) {
                Some((k, p)) => {
                    &&& wait_matches(s, t, WaitCondition::Exists)
                    &&& !wait_matches(s, t, WaitCondition::Gone)
                    &&& wait_matches(s, t, WaitCondition::Enabled) == node_at(s[k].root, p).states.enabled
                    &&& wait_matches(s, t, WaitCondition::Visible) == node_at(s[k].root, p).states.visible
                    &&& wait_matches(s, t, WaitCondition::Focused) == node_at(s[k].root, p).states.focused
                },
                None => {
                    &&& wait_matches(s, t, WaitCondition::Gone)
                    &&& !wait_matches(s, t, WaitCondition::Exists)
                    &&& !wait_matches(s, t, WaitCondition::Enabled)
                    &&& !wait_matches(s, t, WaitCondition::Visible)
                    &&& !wait_matches(s, t, WaitCondition::Focused)
                },
            }
        }),
{
}

/// Waiting on a window that the snapshot resolves: it is enabled exactly
/// when its root is, visible when its root is and it has an area, and
/// focused when something in it has focus.
pub proof fn lemma_wait_on_window(s: Seq<WindowV>, l: WindowLocatorV)
    ensures
        ({
            let t = TargetV::Window(l);
            match resolved_window(s, l) {
                Some(k) => {
                    &&& wait_matches(s, t, WaitCondition::Exists)
                    &&& !wait_matches(s, t, WaitCondition::Gone)
                    &&& wait_matches(s, t, WaitCondition::Enabled) == s[k].root.states.enabled
                    &&& wait_matches(s, t, WaitCondition::Visible) == (s[k].root.states.visible && s[k].bounds.width > 0 && s[k].bounds.height > 0)
                    &&& wait_matches(s, t, WaitCondition::Focused) == has_focus(s[k].root)
                },
                None => wait_matches(s, t, WaitCondition::Gone) && !wait_matches(s, t, WaitCondition::Enabled),
            }
        }),
{
}

/// Whether a wait condition holds of its target in the snapshot.
pub fn wait_condition_matches(snapshot: &UiSnapshot, target: &ActionTarget, condition: &WaitCondition) -> (r: bool)
    ensures
        r == wait_matches(snapshot@.windows, target@, *condition),
{
    let ghost ws = windows_view(snapshot.windows@);
    assert(snapshot@.windows == ws);
    match target {
        ActionTarget::Desktop => match condition {
            WaitCondition::Focused => any_focused(&snapshot.windows),
            WaitCondition::Gone => false,
            _ => true,
        },
        ActionTarget::Window(locator) => match resolve_window(snapshot, locator) {
            Some(k) => {
                let w = &snapshot.windows[k];
                match condition {
                    WaitCondition::Exists => true,
                    WaitCondition::Visible => w.root.states.visible && w.bounds.width > 0 && w.bounds.height > 0,
                    WaitCondition::Enabled => w.root.states.enabled,
                    WaitCondition::Focused => subtree_has_focus(&w.root),
                    WaitCondition::Gone => false,
                }
            },
            None => matches!(condition, WaitCondition::Gone),
        },
        ActionTarget::Element(e) => match resolve_element(snapshot, &e.element_id, &e.locator) {
            Some((k, p)) => {
                proof {
                    lemma_resolved_element_valid(ws, opt_element_id_view(e.element_id), opt_locator_view(e.locator));
                    assert(path_view(p@).skip(0) =~= path_view(p@));
                }
                let n = subtree_at(&snapshot.windows[k].root, &p, 0);
                match condition {
                    WaitCondition::Exists => true,
                    WaitCondition::Visible => n.states.visible,
                    WaitCondition::Enabled => n.states.enabled,
                    WaitCondition::Focused => n.states.focused,
                    WaitCondition::Gone => false,
                }
            },
            None => matches!(condition, WaitCondition::Gone),
        },
        ActionTarget::Region(region) => {
            let present = match &region.window_id {
                Some(id) => find_window(&snapshot.windows, id.0.as_str()).is_some(),
                None => true,
            };
            match condition {
                WaitCondition::Focused => false,
                WaitCondition::Gone => !present,
                _ => present,
            }
        },
    }
}

// ---------------------------------------------------------------------
// Evidence and labels

/// Actions whose purpose is to produce an artifact, and so never get a
/// snapshot attached as evidence.
pub open spec fn is_artifact_action(k: KindV) -> bool {
    match k {
        KindV::ListWindows | KindV::GetTree(_) | KindV::WriteArtifact { .. }
        | KindV::CollectDiagnosticBundle { .. } | KindV::CaptureRegion(_) | KindV::OcrRegion { .. } => true,
        _ => false,
    }
}

/// Whether an action's outcome carries a snapshot as evidence: never for an
/// artifact-producing action, otherwise as the capture policy says.
pub open spec fn attaches_snapshot(k: KindV, policy: CapturePolicy, success: bool) -> bool {
    !is_artifact_action(k) && match policy {
        CapturePolicy::Never => false,
        CapturePolicy::OnFailure => !success,
        CapturePolicy::Always => true,
    }
}

/// Whether to attach a snapshot to the outcome of an action of kind `kind`.
pub fn should_attach_snapshot_artifact(kind: &ActionKind, policy: &CapturePolicy, success: bool) -> (r: bool)
    ensures
        r == attaches_snapshot(kind@, *policy, success),
{
    let explicit_artifact_action = match kind {
        ActionKind::ListWindows | ActionKind::GetTree(_) | ActionKind::WriteArtifact(_)
        | ActionKind::CollectDiagnosticBundle(_) | ActionKind::CaptureRegion(_)
        | ActionKind::OcrRegion(_) => true,
        _ => false,
    };
    if explicit_artifact_action {
        return false;
    }
    match policy {
        CapturePolicy::Never => false,
        CapturePolicy::OnFailure => !success,
        CapturePolicy::Always => true,
    }
}

/// The label under which an action's outcomes are counted.
pub fn action_kind_label(kind: &ActionKind) -> (r: &'static str)
    ensures
        r@ == kind_name(kind@),
{
    action_kind_name(kind)
}

/// A backend result for an action that completed.
pub fn completed_action(action_id: ActionId, message: String) -> (r: BackendActionResult)
    ensures
        r.action_id == action_id,
        r.ok,
        r.status == ActionStatus::Completed,
        r.message == message,
        r.artifacts@.len() == 0,
{
    BackendActionResult { action_id, ok: true, status: ActionStatus::Completed, message, artifacts: Vec::new() }
}

/// A backend result for an action that failed.
pub fn failed_action(action: ActionRequest, message: String) -> (r: BackendActionResult)
    ensures
        r.action_id == action.action_id,
        !r.ok,
        r.status == ActionStatus::Failed,
        r.message == message,
        r.artifacts@.len() == 0,
{
    BackendActionResult { action_id: action.action_id, ok: false, status: ActionStatus::Failed, message, artifacts: Vec::new() }
}

/// A backend result for an action the backend cannot perform.
pub fn unsupported_action(action: ActionRequest, message: String) -> (r: BackendActionResult)
    ensures
        r.action_id == action.action_id,
        !r.ok,
        r.status == ActionStatus::Unsupported,
        r.message == message,
        r.artifacts@.len() == 0,
{
    BackendActionResult { action_id: action.action_id, ok: false, status: ActionStatus::Unsupported, message, artifacts: Vec::new() }
}

/// A snapshot's revision moved past `current` when it does not exceed it,
/// so that revisions handed to a client only grow.
pub fn normalize_snapshot_revision(snapshot: &mut UiSnapshot, current_rev: u64)
    ensures
        final(snapshot).rev == (if old(snapshot).rev <= current_rev {
            if current_rev == u64::MAX { u64::MAX } else { (current_rev + 1) as u64 }
        } else {
            old(snapshot).rev
        }),
        final(snapshot).session_id == old(snapshot).session_id,
        final(snapshot).profile == old(snapshot).profile,
        final(snapshot).captured_at_unix_ms == old(snapshot).captured_at_unix_ms,
        final(snapshot).windows == old(snapshot).windows,
{
    if snapshot.rev <= current_rev {
        snapshot.rev = current_rev.saturating_add(1);
    }
}

// ---------------------------------------------------------------------
// Tree depth

/// The subtree cut below depth `d`: nodes at depth `d` keep no children.
pub open spec fn truncated(n: NodeV, d: nat) -> NodeV
    decreases n,
{
    if d == 0 {
        NodeV { children: Seq::empty(), ..n }
    } else {
        NodeV {
            children: Seq::new(
                n.children.len(),
                |i: int|
                    if 0 <= i < n.children.len() {
                        truncated(n.children[i], (d - 1) as nat)
                    } else {
                        empty_node_v()
                    },
            ),
            ..n
        }
    }
}

/// Cuts the subtree below depth `max_depth`.
pub fn truncate_node_depth(n: &mut ElementNode, max_depth: u32)
    ensures
        final(n)@ == truncated(old(n)@, max_depth as nat),
    decreases *old(n),
{
    let ghost before = *n;
    proof {
        lemma_children_view(before);
    }
    if max_depth == 0 {
        n.children.clear();
        proof {
            crate::tree::lemma_view_with_children(before, *n);
            assert(nodes_view(n.children@) =~= Seq::<NodeV>::empty());
            assert(n@ =~= truncated(before@, 0));
        }
        return;
    }
    let mut i: usize = 0;
    while i < n.children.len()
        invariant
            i <= n.children@.len(),
            n.children@.len() == before.children@.len(),
            before == *old(n),
            max_depth > 0,
            n.element_id == before.element_id,
            n.parent_id == before.parent_id,
            n.backend == before.backend,
            n.control_type == before.control_type,
            n.class_name == before.class_name,
            n.name == before.name,
            n.automation_id == before.automation_id,
            n.native_window_handle == before.native_window_handle,
            n.bounds == before.bounds,
            n.locator == before.locator,
            n.properties == before.properties,
            n.states == before.states,
            n.confidence_bits == before.confidence_bits,
            forall|j: int| 0 <= j < i ==> #[trigger] n.children@[j]@ == truncated(before.children@[j]@, (max_depth - 1) as nat),
            forall|j: int| i <= j < n.children@.len() ==> #[trigger] n.children@[j] == before.children@[j],
        decreases n.children@.len() - i,
    {
        let mut child = n.children.remove(i);
        proof {
            assert(child == before.children@[i as int]);
            assert(decreases_to!(before => before.children));
            assert(decreases_to!(before.children => before.children@));
            assert(decreases_to!(before.children@ => before.children@[i as int]));
        }
        truncate_node_depth(&mut child, max_depth - 1);
        n.children.insert(i, child);
        i = i + 1;
    }
    proof {
        crate::tree::lemma_view_with_children(before, *n);
        let want = truncated(before@, max_depth as nat);
        assert(nodes_view(n.children@) =~= want.children);
        assert(n@ =~= want);
    }
}


// ---------------------------------------------------------------------
// Session stream protocol

/// How far a session stream has come in its handshake.
#[derive(Clone, Copy, Debug, PartialEq, Eq, Structural)]
pub enum SessionPhase {
    /// Nothing received yet.
    AwaitingHello,
    /// `hello` received: the session exists.
    Greeted,
    /// `subscribe` received: the backend observes and actions are accepted.
    Subscribed,
}

/// What the daemon does with one client message.
#[derive(Clone, Debug, PartialEq, Eq)]
pub enum SessionStep {
    /// Open the session and acknowledge the hello.
    OpenSession,
    /// Attach the backend and send the initial snapshot.
    Subscribe,
    /// Carry out the action and send its result.
    ExecuteAction,
    /// Answer that artifacts are read through the dedicated RPC.
    RedirectArtifactRead,
    /// Answer a ping.
    Pong,
    /// End the stream: the message breaks the handshake order.
    Reject { message: String },
}

/// Order of the phases.
pub open spec fn phase_rank(p: SessionPhase) -> int {
    match p {
        SessionPhase::AwaitingHello => 0,
        SessionPhase::Greeted => 1,
        SessionPhase::Subscribed => 2,
    }
}

/// Why a message is refused in a phase, if it is.
pub open spec fn rejection(phase: SessionPhase, m: ClientMessage) -> Option<Seq<char>> {
    match m {
        ClientMessage::Hello(_) => if phase is AwaitingHello {
            None
        } else {
            Some("hello has already been received for this session"@)
        },
        ClientMessage::Subscribe(_) => match phase {
            SessionPhase::AwaitingHello => Some("hello must be sent first"@),
            SessionPhase::Greeted => None,
            SessionPhase::Subscribed => Some("subscribe has already been received for this session"@),
        },
        ClientMessage::ActionRequest(_) => match phase {
            SessionPhase::AwaitingHello => Some("hello must be sent before actions"@),
            SessionPhase::Greeted => Some("subscribe must be sent before actions"@),
            SessionPhase::Subscribed => None,
        },
        _ => None,
    }
}

/// The phase after an accepted message.
pub open spec fn next_phase(phase: SessionPhase, m: ClientMessage) -> SessionPhase {
    if rejection(phase, m) is Some {
        phase
    } else {
        match m {
            ClientMessage::Hello(_) => SessionPhase::Greeted,
            ClientMessage::Subscribe(_) => SessionPhase::Subscribed,
            _ => phase,
        }
    }
}

/// The step for a message that is not refused.
pub open spec fn accepted_step(m: ClientMessage) -> SessionStep {
    match m {
        ClientMessage::Hello(_) => SessionStep::OpenSession,
        ClientMessage::Subscribe(_) => SessionStep::Subscribe,
        ClientMessage::ActionRequest(_) => SessionStep::ExecuteAction,
        ClientMessage::ReadArtifact(_) => SessionStep::RedirectArtifactRead,
        ClientMessage::Ping => SessionStep::Pong,
    }
}

/// The daemon's answer to one client message in a phase, and the next phase.
pub fn session_step(phase: SessionPhase, message: &ClientMessage) -> (r: (SessionPhase, SessionStep))
    ensures
        r.0 == next_phase(phase, *message),
        match rejection(phase, *message) {
            Some(t) => r.1 matches SessionStep::Reject { message } && message@ == t,
            None => r.1 == accepted_step(*message),
        },
{
    match message {
        ClientMessage::Hello(_) => match phase {
            SessionPhase::AwaitingHello => (SessionPhase::Greeted, SessionStep::OpenSession),
            _ => (phase, SessionStep::Reject {
                message: String::from_str("hello has already been received for this session"),
            }),
        },
        ClientMessage::Subscribe(_) => match phase {
            SessionPhase::AwaitingHello => (phase, SessionStep::Reject { message: String::from_str("hello must be sent first") }),
            SessionPhase::Greeted => (SessionPhase::Subscribed, SessionStep::Subscribe),
            SessionPhase::Subscribed => (phase, SessionStep::Reject {
                message: String::from_str("subscribe has already been received for this session"),
            }),
        },
        ClientMessage::ActionRequest(_) => match phase {
            SessionPhase::AwaitingHello => (phase, SessionStep::Reject {
                message: String::from_str("hello must be sent before actions"),
            }),
            SessionPhase::Greeted => (phase, SessionStep::Reject {
                message: String::from_str("subscribe must be sent before actions"),
            }),
            SessionPhase::Subscribed => (phase, SessionStep::ExecuteAction),
        },
        ClientMessage::ReadArtifact(_) => (phase, SessionStep::RedirectArtifactRead),
        ClientMessage::Ping => (phase, SessionStep::Pong),
    }
}

/// The handshake only moves forward; an action runs only on a subscribed
/// stream, a subscription only after the hello, and a hello only once.
pub proof fn lemma_session_handshake(phase: SessionPhase, m: ClientMessage)
    ensures
        phase_rank(next_phase(phase, m)) >= phase_rank(phase),
        (m is ActionRequest && rejection(phase, m) is None) ==> phase is Subscribed,
        (m is Subscribe && rejection(phase, m) is None) ==> phase is Greeted,
        (m is Hello && rejection(phase, m) is None) ==> phase is AwaitingHello,
{
}

/// The warning that answers an artifact read sent on the session stream.
pub fn artifact_read_redirect() -> (r: WarningEvent)
    ensures
        r.code@ == "use_read_artifact_rpc"@,
        r.message@ == "artifact payloads are served via the dedicated ReadArtifact RPC"@,
{
    WarningEvent {
        code: String::from_str("use_read_artifact_rpc"),
        message: String::from_str("artifact payloads are served via the dedicated ReadArtifact RPC"),
    }
}

// ---------------------------------------------------------------------
// Results of the daemon's own actions

/// The result of listing windows: the snapshot stored as `artifacts`.
pub fn list_windows_result(action_id: ActionId, snapshot: &UiSnapshot, artifacts: Vec<crate::protocol::ArtifactDescriptor>) -> (r: crate::protocol::ActionResult)
    ensures
        r.action_id == action_id,
        r.ok,
        r.status == ActionStatus::Completed,
        r.message@ == "stored "@ + decimal(snapshot@.windows.len()) + " windows from revision "@ + decimal(snapshot.rev as nat),
        r.artifacts == artifacts,
{
    let mut message = String::from_str("stored ");
    let count = u64_to_decimal(snapshot.windows.len() as u64);
    message.append(count.as_str());
    message.append(" windows from revision ");
    let rev = u64_to_decimal(snapshot.rev);
    message.append(rev.as_str());
    proof {
        assert(snapshot@.windows.len() == snapshot.windows@.len());
    }
    crate::protocol::ActionResult { action_id, ok: true, status: ActionStatus::Completed, message, artifacts }
}

/// The kind an explicit artifact write is stored under: the one asked
/// for, or `snapshot-json` when that is blank.
pub open spec fn written_kind(kind: Seq<char>) -> Seq<char> {
    if crate::text::trimmed(kind).len() == 0 {
        "snapshot-json"@
    } else {
        kind
    }
}

/// The kind an explicit artifact write is stored under (see `written_kind`).
pub fn write_artifact_kind(kind: &str) -> (r: String)
    ensures
        r@ == written_kind(kind@),
{
    let t = crate::text::trim_owned(kind);
    if t.as_str().unicode_len() == 0 {
        String::from_str("snapshot-json")
    } else {
        String::from_str(kind)
    }
}

/// The result of an explicit artifact write of kind `kind`.
pub fn write_artifact_result(action_id: ActionId, kind: &str, artifacts: Vec<crate::protocol::ArtifactDescriptor>) -> (r: crate::protocol::ActionResult)
    ensures
        r.action_id == action_id,
        r.ok,
        r.status == ActionStatus::Completed,
        r.message@ == "stored artifact `"@ + kind@ + "`"@,
        r.artifacts == artifacts,
{
    let mut message = String::from_str("stored artifact `");
    message.append(kind);
    message.append("`");
    crate::protocol::ActionResult { action_id, ok: true, status: ActionStatus::Completed, message, artifacts }
}

/// The screenshot an OCR request falls back to: a PNG capture of the same
/// target, named after the request, with no snapshot attached.
pub fn ocr_capture_request(action: &ActionRequest) -> (r: ActionRequest)
    ensures
        r.action_id@ == action.action_id@ + "-capture"@,
        r.timeout_ms == action.timeout_ms,
        r.target@ == action.target@,
        r.kind == ActionKind::CaptureRegion(crate::protocol::CaptureOptions { format: crate::protocol::CaptureFormat::Png }),
        r.capture_policy == CapturePolicy::Never,
{
    let mut id = String::from_str(action.action_id.as_str());
    id.append("-capture");
    ActionRequest {
        action_id: ActionId(id),
        timeout_ms: action.timeout_ms,
        target: crate::diagnostics::copy_target(&action.target),
        kind: ActionKind::CaptureRegion(crate::protocol::CaptureOptions { format: crate::protocol::CaptureFormat::Png }),
        capture_policy: CapturePolicy::Never,
    }
}

/// The result of an OCR request on a backend without OCR: unsupported,
/// with whatever the fallback stored.
pub fn ocr_fallback_result(action_id: ActionId, artifacts: Vec<crate::protocol::ArtifactDescriptor>) -> (r: crate::protocol::ActionResult)
    ensures
        r.action_id == action_id,
        !r.ok,
        r.status == ActionStatus::Unsupported,
        r.message@ == "ocr fallback is not available on the current backend"@,
        r.artifacts == artifacts,
{
    crate::protocol::ActionResult {
        action_id,
        ok: false,
        status: ActionStatus::Unsupported,
        message: String::from_str("ocr fallback is not available on the current backend"),
        artifacts,
    }
}

/// Some artifact is a `snapshot-json` one.
pub open spec fn has_snapshot_artifact(artifacts: Seq<crate::protocol::ArtifactDescriptor>) -> bool {
    exists|k: int| 0 <= k < artifacts.len() && (#[trigger] artifacts[k]).kind@ == "snapshot-json"@
}

/// Whether a snapshot is to be stored with an action's outcome: when the
/// capture policy asks for one (see `attaches_snapshot`) and none is among
/// the artifacts yet.
pub fn needs_snapshot_attachment(kind: &ActionKind, policy: &CapturePolicy, success: bool, artifacts: &Vec<crate::protocol::ArtifactDescriptor>) -> (r: bool)
    ensures
        r == (attaches_snapshot(kind@, *policy, success) && !has_snapshot_artifact(artifacts@)),
{
    if !should_attach_snapshot_artifact(kind, policy, success) {
        return false;
    }
    let mut k: usize = 0;
    while k < artifacts.len()
        invariant
            k <= artifacts@.len(),
            forall|j: int| 0 <= j < k ==> (#[trigger] artifacts@[j]).kind@ != "snapshot-json"@,
        decreases artifacts@.len() - k,
    {
        if crate::text::str_equal(artifacts[k].kind.as_str(), "snapshot-json") {
            return false;
        }
        k = k + 1;
    }
    true
}

// ---------------------------------------------------------------------
// Session opening and artifact reads

/// The capability labels a session announces: the daemon's own two, then
/// whether the backend's observer is live, then what the backend supports.
pub open spec fn capability_labels(c: crate::platform::BackendCapabilities) -> Seq<Seq<char>> {
    seq!["grpc-session"@, "artifact-read"@, if c.supports_live_observer { "observer-active"@ } else { "observer-unavailable"@ }]
        + (if c.supports_uia { seq!["uia"@] } else { Seq::empty() })
        + (if c.supports_msaa { seq!["msaa"@] } else { Seq::empty() })
        + (if c.supports_ocr_fallback { seq!["ocr-fallback"@] } else { Seq::empty() })
        + (if c.supports_artifacts { seq!["artifacts"@] } else { Seq::empty() })
}

/// The capability labels of a backend (see `capability_labels`).
pub fn backend_capabilities(c: &crate::platform::BackendCapabilities) -> (r: Vec<String>)
    ensures
        r@.map_values(|x: String| x@) == capability_labels(*c),
{
    let mut labels: Vec<String> = Vec::new();
    labels.push(String::from_str("grpc-session"));
    labels.push(String::from_str("artifact-read"));
    if c.supports_live_observer {
        labels.push(String::from_str("observer-active"));
    } else {
        labels.push(String::from_str("observer-unavailable"));
    }
    let ghost base = labels@.map_values(|x: String| x@);
    if c.supports_uia {
        labels.push(String::from_str("uia"));
    }
    let ghost a1 = labels@.map_values(|x: String| x@);
    assert(a1 =~= base + (if c.supports_uia { seq!["uia"@] } else { Seq::<Seq<char>>::empty() }));
    if c.supports_msaa {
        labels.push(String::from_str("msaa"));
    }
    let ghost a2 = labels@.map_values(|x: String| x@);
    assert(a2 =~= a1 + (if c.supports_msaa { seq!["msaa"@] } else { Seq::<Seq<char>>::empty() }));
    if c.supports_ocr_fallback {
        labels.push(String::from_str("ocr-fallback"));
    }
    let ghost a3 = labels@.map_values(|x: String| x@);
    assert(a3 =~= a2 + (if c.supports_ocr_fallback { seq!["ocr-fallback"@] } else { Seq::<Seq<char>>::empty() }));
    if c.supports_artifacts {
        labels.push(String::from_str("artifacts"));
    }
    assert(labels@.map_values(|x: String| x@) =~= capability_labels(*c));
    labels
}

/// The acknowledgement of a session opening: the session, the daemon's
/// version, the backend and its capability labels, and the profile agreed.
pub fn hello_ack(
    session_id: SessionId,
    server_version: &str,
    backend_id: &str,
    capabilities: &crate::platform::BackendCapabilities,
    profile: crate::protocol::SessionProfile,
) -> (r: crate::protocol::HelloAck)
    ensures
        r.session_id == session_id,
        r.server_version@ == server_version@,
        r.backend_id@ == backend_id@,
        r.capabilities@.map_values(|x: String| x@) == capability_labels(*capabilities),
        r.negotiated_profile == profile,
{
    crate::protocol::HelloAck {
        session_id,
        server_version: String::from_str(server_version),
        backend_id: String::from_str(backend_id),
        capabilities: backend_capabilities(capabilities),
        negotiated_profile: profile,
    }
}

/// The size of the chunks an artifact is read back in.
pub const ARTIFACT_CHUNK_BYTES: usize = 65536;

/// The artifact's bytes cut into consecutive chunks of `ARTIFACT_CHUNK_BYTES`
/// bytes, the last one possibly shorter; no chunk for no bytes.
pub open spec fn chunks_of(b: Seq<u8>) -> Seq<Seq<u8>>
    decreases b.len(),
{
    if b.len() == 0 {
        Seq::empty()
    } else if b.len() <= ARTIFACT_CHUNK_BYTES {
        seq![b]
    } else {
        seq![b.take(ARTIFACT_CHUNK_BYTES as int)] + chunks_of(b.skip(ARTIFACT_CHUNK_BYTES as int))
    }
}

/// The chunks an artifact's bytes are streamed back in (see `chunks_of`),
/// each naming the artifact.
pub fn artifact_chunks(artifact_id: &crate::protocol::ArtifactId, bytes: &Vec<u8>) -> (r: Vec<crate::protocol::ArtifactChunk>)
    ensures
        r@.map_values(|c: crate::protocol::ArtifactChunk| c.data@) == chunks_of(bytes@),
        forall|k: int| 0 <= k < r@.len() ==> (#[trigger] r@[k]).artifact_id@ == artifact_id@,
{
    let mut out: Vec<crate::protocol::ArtifactChunk> = Vec::new();
    let n = bytes.len();
    let mut start: usize = 0;
    assert(bytes@.skip(0) =~= bytes@);
    assert(out@.map_values(|c: crate::protocol::ArtifactChunk| c.data@) + chunks_of(bytes@) =~= chunks_of(bytes@));
    while start < n
        invariant
            n == bytes@.len(),
            start <= n,
            out@.map_values(|c: crate::protocol::ArtifactChunk| c.data@) + chunks_of(bytes@.skip(start as int)) == chunks_of(bytes@),
            forall|k: int| 0 <= k < out@.len() ==> (#[trigger] out@[k]).artifact_id@ == artifact_id@,
        decreases n - start,
    {
        let end = if n - start > ARTIFACT_CHUNK_BYTES {
            start + ARTIFACT_CHUNK_BYTES
        } else {
            n
        };
        let mut data: Vec<u8> = Vec::new();
        let mut i = start;
        while i < end
            invariant
                start <= i <= end <= n == bytes@.len(),
                data@ == bytes@.subrange(start as int, i as int),
            decreases end - i,
        {
            data.push(bytes[i]);
            assert(data@ =~= bytes@.subrange(start as int, i + 1));
            i = i + 1;
        }
        let ghost rest = bytes@.skip(start as int);
        let ghost before = out@.map_values(|c: crate::protocol::ArtifactChunk| c.data@);
        proof {
            if rest.len() <= ARTIFACT_CHUNK_BYTES {
                assert(data@ =~= rest);
                assert(bytes@.skip(end as int) =~= Seq::<u8>::empty());
            } else {
                assert(data@ =~= rest.take(ARTIFACT_CHUNK_BYTES as int));
                assert(rest.skip(ARTIFACT_CHUNK_BYTES as int) =~= bytes@.skip(end as int));
            }
            assert(chunks_of(rest) == seq![data@] + chunks_of(bytes@.skip(end as int)));
        }
        out.push(crate::protocol::ArtifactChunk { artifact_id: crate::protocol::ArtifactId(artifact_id.0.clone()), data });
        assert(out@.map_values(|c: crate::protocol::ArtifactChunk| c.data@) =~= before.push(data@));
        assert(before.push(data@) + chunks_of(bytes@.skip(end as int)) =~= before + (seq![data@] + chunks_of(bytes@.skip(end as int))));
        start = end;
    }
    assert(bytes@.skip(n as int) =~= Seq::<u8>::empty());
    assert(out@.map_values(|c: crate::protocol::ArtifactChunk| c.data@) + Seq::<Seq<u8>>::empty() =~= out@.map_values(|c: crate::protocol::ArtifactChunk| c.data@));
    out
}

// ---------------------------------------------------------------------
// Backend diffs

/// The diff that tells a client to resync from `current_rev`, for `reason`.
pub fn resync_signal(current_rev: u64, reason: String, emitted_at_unix_ms: i64) -> (r: UiDiffBatch)
    ensures
        r.base_rev == current_rev,
        r.new_rev == (if current_rev == u64::MAX { u64::MAX } else { (current_rev + 1) as u64 }),
        r.emitted_at_unix_ms == emitted_at_unix_ms,
        r.ops@.len() == 1,
        r.ops@[0] == (DiffOp::SnapshotResync { reason }),
{
    let mut ops: Vec<DiffOp> = Vec::new();
    ops.push(DiffOp::SnapshotResync { reason });
    UiDiffBatch { base_rev: current_rev, new_rev: current_rev.saturating_add(1), emitted_at_unix_ms, ops }
}

/// The revision a resync signal starts from: the session's current one, or
/// the diff's base when the session is gone.
pub open spec fn resync_base(m: Map<Seq<char>, crate::registry::RecordV>, id: Seq<char>, d: DiffV) -> u64 {
    if m.contains_key(id) {
        m[id].state.rev
    } else {
        d.base_rev
    }
}

/// Applies a backend diff to the session. On refusal, returns the resync
/// signal to send in its place, whose reason is the refusal's text.
pub fn apply_backend_diff(sessions: &mut SessionRegistry, session_id: &SessionId, diff: &UiDiffBatch, now_unix_ms: i64) -> (r: Option<UiDiffBatch>)
    requires
        old(sessions).wf(),
    ensures
        final(sessions).wf(),
        final(sessions)@ == registry_apply_diff(old(sessions)@, session_id@, diff@).0,
        match registry_apply_diff(old(sessions)@, session_id@, diff@).1 {
            None => r is None,
            Some(e) => r matches Some(signal) && {
                let base = resync_base(final(sessions)@, session_id@, diff@);
                &&& signal.base_rev == base
                &&& signal.new_rev == (if base == u64::MAX { u64::MAX } else { (base + 1) as u64 })
                &&& signal.emitted_at_unix_ms == now_unix_ms
                &&& signal.ops@.len() == 1
                &&& signal.ops@[0] matches DiffOp::SnapshotResync { reason } && reason@ == session_error_message(e)
            },
        },
{
    match sessions.apply_diff(session_id, diff) {
        Ok(()) => None,
        Err(e) => {
            let current_rev = match sessions.state(session_id) {
                Some(st) => st.revision(),
                None => diff.base_rev,
            };
            Some(resync_signal(current_rev, e.message(), now_unix_ms))
        },
    }
}


/// The revision a refreshed snapshot takes: its own when it is past the
/// session's current one, else one more than the current one.
pub open spec fn refreshed_rev(snapshot_rev: u64, current: u64) -> u64 {
    if snapshot_rev <= current {
        if current == u64::MAX { u64::MAX } else { (current + 1) as u64 }
    } else {
        snapshot_rev
    }
}

/// A session's record once the refreshed snapshot `snapshot`, moved to
/// revision `rev`, is installed: the runtime's last revision follows it,
/// the store holds it with no resync pending, and recent diffs are dropped.
pub open spec fn refreshed_record(rec: crate::registry::RecordV, snapshot: SnapshotV, rev: u64) -> crate::registry::RecordV {
    crate::registry::RecordV {
        runtime: crate::registry::RuntimeV { last_revision: Some(rev), ..rec.runtime },
        state: crate::diffspec::StoreV { snapshot: Some(SnapshotV { rev, ..snapshot }), rev, resync: None },
        recent: Seq::empty(),
    }
}

/// Installs a snapshot the backend captured to recover from a refused diff,
/// moving its revision past the session's (or past zero when the session
/// is gone) so that clients only see revisions grow. Returns the revision.
pub fn apply_refreshed_snapshot(sessions: &mut SessionRegistry, session_id: &SessionId, snapshot: UiSnapshot) -> (r: Result<u64, crate::registry::SessionError>)
    requires
        old(sessions).wf(),
    ensures
        final(sessions).wf(),
        old(sessions)@.contains_key(session_id@) ==> {
            let rev = refreshed_rev(snapshot.rev, old(sessions)@[session_id@].state.rev);
            &&& r == Ok::<u64, crate::registry::SessionError>(rev)
            &&& final(sessions)@.contains_key(session_id@)
            &&& final(sessions)@[session_id@].state.rev == rev
            &&& final(sessions)@[session_id@].state.resync is None
            &&& final(sessions)@[session_id@].state.snapshot matches Some(sv) && sv.rev == rev && sv.windows == snapshot@.windows
            &&& final(sessions)@ == old(sessions)@.insert(session_id@, refreshed_record(old(sessions)@[session_id@], snapshot@, rev))
        },
        !old(sessions)@.contains_key(session_id@) ==> final(sessions)@ == old(sessions)@ && r is Err,
{
    let current_rev = match sessions.state(session_id) {
        Some(st) => st.revision(),
        None => 0,
    };
    let mut snapshot = snapshot;
    normalize_snapshot_revision(&mut snapshot, current_rev);
    let rev = snapshot.rev;
    match sessions.apply_snapshot(session_id, snapshot) {
        Ok(()) => Ok(rev),
        Err(e) => Err(e),
    }
}


/// `signal` is the resync signal from revision `base`, emitted at `now`,
/// whose reason is `reason`.
pub open spec fn is_resync_signal(signal: UiDiffBatch, base: u64, now: i64, reason: Seq<char>) -> bool {
    &&& signal.base_rev == base
    &&& signal.new_rev == (if base == u64::MAX { u64::MAX } else { (base + 1) as u64 })
    &&& signal.emitted_at_unix_ms == now
    &&& signal.ops@.len() == 1
    &&& signal.ops@[0] matches DiffOp::SnapshotResync { reason: x } && x@ == reason
}

/// What forwarding one backend diff does besides updating the session: the
/// messages for the client, and whether a fresh snapshot is now needed.
#[derive(Debug)]
pub struct ForwardedDiff {
    pub messages: Vec<ServerMessage>,
    pub refresh: bool,
}

/// Forwards a backend diff: applied, it goes to the client when the
/// client asked for the diff stream; refused, the resync is counted, the
/// client (if it asked for the stream) gets the resync signal, and a fresh
/// snapshot is needed.
pub fn forward_backend_diff(
    state: &mut AgentRuntimeState,
    session_id: &SessionId,
    diff: &UiDiffBatch,
    emit_diff_stream: bool,
    now_unix_ms: i64,
) -> (r: ForwardedDiff)
    requires
        old(state).wf(),
        old(state).telemetry.resync_count < u64::MAX,
    ensures
        final(state).wf(),
        final(state).sessions@ == registry_apply_diff(old(state).sessions@, session_id@, diff@).0,
        final(state).artifacts == old(state).artifacts,
        match registry_apply_diff(old(state).sessions@, session_id@, diff@).1 {
            None => {
                &&& !r.refresh
                &&& final(state).telemetry == old(state).telemetry
                &&& if emit_diff_stream {
                    r.messages@.len() == 1 && (r.messages@[0] matches ServerMessage::DiffBatch(d) && d@ == diff@)
                } else {
                    r.messages@.len() == 0
                }
            },
            Some(e) => {
                &&& r.refresh
                &&& final(state).telemetry.resync_count == old(state).telemetry.resync_count + 1
                &&& final(state).telemetry.last_resync_at_unix_ms == Some(now_unix_ms)
                &&& opt_view(final(state).telemetry.last_resync_reason) == Some(session_error_message(e))
                &&& final(state).telemetry == (RuntimeTelemetry {
                    resync_count: final(state).telemetry.resync_count,
                    last_resync_at_unix_ms: Some(now_unix_ms),
                    last_resync_reason: final(state).telemetry.last_resync_reason,
                    ..old(state).telemetry
                })
                &&& if emit_diff_stream {
                    r.messages@.len() == 1 && (r.messages@[0] matches ServerMessage::DiffBatch(signal) && is_resync_signal(
                        signal,
                        resync_base(final(state).sessions@, session_id@, diff@),
                        now_unix_ms,
                        session_error_message(e),
                    ))
                } else {
                    r.messages@.len() == 0
                }
            },
        },
{
    let mut messages: Vec<ServerMessage> = Vec::new();
    match apply_backend_diff(&mut state.sessions, session_id, diff, now_unix_ms) {
        None => {
            if emit_diff_stream {
                messages.push(ServerMessage::DiffBatch(copy_diff(diff)));
            }
            ForwardedDiff { messages, refresh: false }
        },
        Some(signal) => {
            let reason = match &signal.ops[0] {
                DiffOp::SnapshotResync { reason } => reason.clone(),
                _ => String::new(),
            };
            state.record_resync_at(reason.as_str(), now_unix_ms);
            if emit_diff_stream {
                messages.push(ServerMessage::DiffBatch(signal));
            }
            ForwardedDiff { messages, refresh: true }
        },
    }
}

/// The reason a recovery through a fresh snapshot is counted under.
pub open spec fn snapshot_recovery_reason() -> Seq<char> {
    "fresh snapshot after a refused diff"@
}

/// The text of the warning that a session recovered through a fresh
/// snapshot at revision `rev`, which broke the diff stream's continuity.
pub open spec fn recovery_message(rev: u64) -> Seq<char> {
    "session state recovered from a fresh snapshot at revision "@ + decimal(rev as nat) + "; continuity_invalidated=true"@
}

/// Forwards the fresh snapshot captured after a refused diff: installed
/// (see `apply_refreshed_snapshot`), the recovery is counted as breaking
/// continuity, the client gets the snapshot when it asked for the stream,
/// and a `session_state_recovered` warning; refused, the client gets a
/// `session_resync_apply_failed` warning with the refusal's text.
pub fn forward_refreshed_snapshot(
    state: &mut AgentRuntimeState,
    session_id: &SessionId,
    snapshot: UiSnapshot,
    emit_diff_stream: bool,
    now_unix_ms: i64,
) -> (r: Vec<ServerMessage>)
    requires
        old(state).wf(),
        old(state).telemetry.recovery_count < u64::MAX,
        old(state).telemetry.continuity_invalidated_count < u64::MAX,
    ensures
        final(state).wf(),
        !emit_diff_stream ==> forall|k: int| 0 <= k < r@.len() ==> (#[trigger] r@[k]) is Warning,
        final(state).artifacts == old(state).artifacts,
        old(state).sessions@.contains_key(session_id@) ==> {
            let rev = refreshed_rev(snapshot.rev, old(state).sessions@[session_id@].state.rev);
            let n = r@.len() - 1;
            &&& final(state).sessions@.contains_key(session_id@)
            &&& final(state).sessions@[session_id@].state.rev == rev
            &&& final(state).sessions@[session_id@].state.resync is None
            &&& final(state).sessions@[session_id@].state.snapshot matches Some(sv) && sv.rev == rev && sv.windows == snapshot@.windows
            &&& final(state).telemetry.recovery_count == old(state).telemetry.recovery_count + 1
            &&& final(state).telemetry.continuity_invalidated_count == old(state).telemetry.continuity_invalidated_count + 1
            &&& final(state).telemetry.continuity_invalidated
            &&& final(state).telemetry.last_recovery_at_unix_ms == Some(now_unix_ms)
            &&& opt_view(final(state).telemetry.last_recovery_reason) == Some(snapshot_recovery_reason())
            &&& final(state).telemetry == (RuntimeTelemetry {
                recovery_count: final(state).telemetry.recovery_count,
                continuity_invalidated_count: final(state).telemetry.continuity_invalidated_count,
                last_recovery_at_unix_ms: Some(now_unix_ms),
                last_recovery_reason: final(state).telemetry.last_recovery_reason,
                continuity_invalidated: true,
                ..old(state).telemetry
            })
            &&& final(state).sessions@ == old(state).sessions@.insert(session_id@, refreshed_record(old(state).sessions@[session_id@], snapshot@, rev))
            &&& final(state).sessions@[session_id@].runtime.last_revision == Some(rev)
            &&& r@.len() == (if emit_diff_stream { 2int } else { 1int })
            &&& emit_diff_stream ==> (r@[0] matches ServerMessage::InitialSnapshot(sent) && sent@.rev == rev
                && sent@.windows == snapshot@.windows && sent@.session_id == snapshot@.session_id
                && sent@.profile == snapshot@.profile && sent@.captured_at_unix_ms == snapshot@.captured_at_unix_ms)
            &&& r@[n] matches ServerMessage::Warning(w) && w.code@ == "session_state_recovered"@ && w.message@ == recovery_message(rev)
        },
        !old(state).sessions@.contains_key(session_id@) ==> {
            &&& final(state).sessions@ == old(state).sessions@
            &&& final(state).telemetry == old(state).telemetry
            &&& r@.len() == 1
            &&& r@[0] matches ServerMessage::Warning(w) && w.code@ == "session_resync_apply_failed"@
                && w.message@ == session_error_message(SessionErrorV::NotFound(session_id@))
        },
{
    let mut messages: Vec<ServerMessage> = Vec::new();
    let ghost had = state.sessions@.contains_key(session_id@);
    let ghost s0 = snapshot@;
    let current_rev = match state.sessions.state(session_id) {
        Some(st) => st.revision(),
        None => 0,
    };
    let mut sent = snapshot;
    normalize_snapshot_revision(&mut sent, current_rev);
    let installed = copy_snapshot(&sent);
    match state.sessions.apply_snapshot(session_id, installed) {
        Ok(()) => {
            let rev = sent.rev;
            state.record_recovery_at("fresh snapshot after a refused diff", true, now_unix_ms);
            if emit_diff_stream {
                messages.push(ServerMessage::InitialSnapshot(sent));
            }
            let mut message = String::from_str("session state recovered from a fresh snapshot at revision ");
            let digits = u64_to_decimal(rev);
            message.append(digits.as_str());
            message.append("; continuity_invalidated=true");
            messages.push(ServerMessage::Warning(WarningEvent { code: String::from_str("session_state_recovered"), message }));
            messages
        },
        Err(e) => {
            messages.push(ServerMessage::Warning(WarningEvent { code: String::from_str("session_resync_apply_failed"), message: e.message() }));
            messages
        },
    }
}

/// Forwards one backend event: a diff as `forward_backend_diff` does, a
/// warning passed on as it is. Without the diff stream, only warnings
/// reach the client.
pub fn forward_backend_event(
    state: &mut AgentRuntimeState,
    session_id: &SessionId,
    event: crate::platform::BackendEvent,
    emit_diff_stream: bool,
    now_unix_ms: i64,
) -> (r: ForwardedDiff)
    requires
        old(state).wf(),
        old(state).telemetry.resync_count < u64::MAX,
    ensures
        final(state).wf(),
        final(state).artifacts == old(state).artifacts,
        !emit_diff_stream ==> forall|k: int| 0 <= k < r.messages@.len() ==> (#[trigger] r.messages@[k]) is Warning,
        match event {
            crate::platform::BackendEvent::Diff(d) => final(state).sessions@ == registry_apply_diff(old(state).sessions@, session_id@, d@).0
                && (r.refresh <==> registry_apply_diff(old(state).sessions@, session_id@, d@).1 is Some),
            crate::platform::BackendEvent::Warning { code, message } => {
                &&& final(state).sessions == old(state).sessions
                &&& final(state).telemetry == old(state).telemetry
                &&& !r.refresh
                &&& r.messages@.len() == 1
                &&& r.messages@[0] == ServerMessage::Warning(WarningEvent { code, message })
            },
        },
{
    match event {
        crate::platform::BackendEvent::Diff(d) => forward_backend_diff(state, session_id, &d, emit_diff_stream, now_unix_ms),
        crate::platform::BackendEvent::Warning { code, message } => {
            let mut messages: Vec<ServerMessage> = Vec::new();
            messages.push(ServerMessage::Warning(WarningEvent { code, message }));
            ForwardedDiff { messages, refresh: false }
        },
    }
}

/// The result of a panel probe whose target is not there.
pub fn panel_probe_target_missing(action: ActionRequest) -> (r: BackendActionResult)
    ensures
        r.action_id == action.action_id,
        !r.ok,
        r.status == ActionStatus::Failed,
        r.message@ == "panel_probe target was not found"@,
        r.artifacts@.len() == 0,
{
    failed_action(action, String::from_str("panel_probe target was not found"))
}

/// The warning that the fresh snapshot after a refused diff could not be
/// captured, with the backend's text.
pub fn refresh_failed_warning(message: String) -> (r: WarningEvent)
    ensures
        r.code@ == "session_resync_refresh_failed"@,
        r.message == message,
{
    WarningEvent { code: String::from_str("session_resync_refresh_failed"), message }
}

// ---------------------------------------------------------------------
// Tree reads

/// What a tree read returns, before it is encoded.
#[derive(Debug)]
pub enum TreePayload {
    /// The whole snapshot.
    Snapshot(UiSnapshot),
    /// One window.
    Window(WindowState),
    /// One element subtree and the window it is in.
    Element { window_id: WindowId, element: ElementNode },
    /// The whole snapshot, given as it is rather than wrapped.
    RawSnapshot(UiSnapshot),
    /// One window, given as it is rather than wrapped.
    RawWindow(WindowState),
    /// One element subtree alone, without the window it is in.
    RawElement(ElementNode),
}

/// `s` is the snapshot with every window's tree cut at the depth asked for.
pub open spec fn snapshot_cut(s: SnapshotV, snapshot: SnapshotV, max_depth: Option<u32>) -> bool {
    &&& s.session_id == snapshot.session_id
    &&& s.rev == snapshot.rev
    &&& s.profile == snapshot.profile
    &&& s.captured_at_unix_ms == snapshot.captured_at_unix_ms
    &&& s.windows.len() == snapshot.windows.len()
    &&& forall|i: int| 0 <= i < s.windows.len() ==> #[trigger] s.windows[i] == window_cut(snapshot.windows[i], max_depth)
}

/// The subtree cut at the depth asked for, if one was.
pub open spec fn depth_cut(n: NodeV, max_depth: Option<u32>) -> NodeV {
    match max_depth {
        Some(d) => truncated(n, d as nat),
        None => n,
    }
}

/// The window with its tree cut at the depth asked for.
pub open spec fn window_cut(w: WindowV, max_depth: Option<u32>) -> WindowV {
    WindowV { root: depth_cut(w.root, max_depth), ..w }
}

/// Cuts a window's tree at the depth asked for.
fn cut_window(w: &mut WindowState, max_depth: Option<u32>)
    ensures
        final(w)@ == window_cut(old(w)@, max_depth),
{
    if let Some(d) = max_depth {
        truncate_node_depth(&mut w.root, d);
    }
}

/// `r` is what a tree read of `target` returns from `snapshot` (see
/// `build_tree_payload`).
pub open spec fn is_tree_read(r: Option<TreePayload>, snapshot: SnapshotV, target: TargetV, raw: bool, max_depth: Option<u32>) -> bool {
    match target {
        TargetV::Desktop => r matches Some(q) && (if raw {
            q matches TreePayload::RawSnapshot(s) && snapshot_cut(s@, snapshot, max_depth)
        } else {
            q matches TreePayload::Snapshot(s) && snapshot_cut(s@, snapshot, max_depth)
        }),
        TargetV::Window(l) => match resolved_window(snapshot.windows, l) {
            Some(k) => r matches Some(q) && (if raw {
                q matches TreePayload::RawWindow(w) && w@ == window_cut(snapshot.windows[k], max_depth)
            } else {
                q matches TreePayload::Window(w) && w@ == window_cut(snapshot.windows[k], max_depth)
            }),
            None => r is None,
        },
        TargetV::Element { element_id, locator } => match resolved_element(snapshot.windows, element_id, locator) {
            Some((k, p)) => r matches Some(q) && (if raw {
                q matches TreePayload::RawElement(element) && element@ == depth_cut(node_at(snapshot.windows[k].root, p), max_depth)
            } else {
                q matches TreePayload::Element { window_id, element } && window_id@ == snapshot.windows[k].window_id
                    && element@ == depth_cut(node_at(snapshot.windows[k].root, p), max_depth)
            }),
            None => r is None,
        },
        TargetV::Region { .. } => r is None,
    }
}

/// What a tree read of `target` returns from the snapshot, trees cut at
/// `max_depth`: wrapped with what it is (and, for an element, its window),
/// or as it is when `raw`; nothing when the target names no window or
/// element, or is a region.
pub fn build_tree_payload(snapshot: &UiSnapshot, target: &ActionTarget, raw: bool, max_depth: Option<u32>) -> (r: Option<TreePayload>)
    ensures
        is_tree_read(r, snapshot@, target@, raw, max_depth),
{
    let ghost ws = windows_view(snapshot.windows@);
    assert(snapshot@.windows == ws);
    match target {
        ActionTarget::Desktop => {
            let mut s = copy_snapshot(snapshot);
            let ghost s0 = s;
            let mut i: usize = 0;
            while i < s.windows.len()
                invariant
                    i <= s.windows@.len(),
                    s.windows@.len() == ws.len(),
                    s0@ == snapshot@,
                    ws == snapshot@.windows,
                    s.session_id == s0.session_id,
                    s.rev == s0.rev,
                    s.profile == s0.profile,
                    s.captured_at_unix_ms == s0.captured_at_unix_ms,
                    forall|j: int| 0 <= j < i ==> (#[trigger] s.windows@[j])@ == window_cut(ws[j], max_depth),
                    forall|j: int| i <= j < s.windows@.len() ==> (#[trigger] s.windows@[j])@ == ws[j],
                decreases s.windows@.len() - i,
            {
                let mut w = s.windows.remove(i);
                cut_window(&mut w, max_depth);
                s.windows.insert(i, w);
                i = i + 1;
            }
            assert(s@.windows.len() == snapshot@.windows.len());
            assert(snapshot_cut(s@, snapshot@, max_depth));
            if raw {
                Some(TreePayload::RawSnapshot(s))
            } else {
                Some(TreePayload::Snapshot(s))
            }
        },
        ActionTarget::Window(l) => match resolve_window(snapshot, l) {
            Some(k) => {
                let mut w = copy_window(&snapshot.windows[k]);
                cut_window(&mut w, max_depth);
                if raw {
                    Some(TreePayload::RawWindow(w))
                } else {
                    Some(TreePayload::Window(w))
                }
            },
            None => None,
        },
        ActionTarget::Element(e) => match resolve_element(snapshot, &e.element_id, &e.locator) {
            Some((k, p)) => {
                proof {
                    lemma_resolved_element_valid(ws, opt_element_id_view(e.element_id), opt_locator_view(e.locator));
                    assert(path_view(p@).skip(0) =~= path_view(p@));
                }
                let n = subtree_at(&snapshot.windows[k].root, &p, 0);
                let mut element = copy_node(n);
                if let Some(d) = max_depth {
                    truncate_node_depth(&mut element, d);
                }
                if raw {
                    Some(TreePayload::RawElement(element))
                } else {
                    let window_id = WindowId(snapshot.windows[k].window_id.0.clone());
                    Some(TreePayload::Element { window_id, element })
                }
            },
            None => None,
        },
        ActionTarget::Region(_) => None,
    }
}


// ---------------------------------------------------------------------
// Diagnostic capture and target enrichment

/// The element's bounds relative to its window fit in 32 bits.
pub open spec fn relative_bounds_fit(s: Seq<WindowV>, element_id: Option<Seq<char>>, locator: Option<LocatorV>) -> bool {
    match resolved_element(s, element_id, locator) {
        Some((k, p)) => {
            let n = node_at(s[k].root, p);
            &&& i32::MIN <= n.bounds.left - s[k].bounds.left <= i32::MAX
            &&& i32::MIN <= n.bounds.top - s[k].bounds.top <= i32::MAX
        },
        None => true,
    }
}

/// The region a diagnostic capture of `target` covers: a window's whole
/// area, an element's bounds relative to its window, a region as given;
/// none for the desktop or a target that names nothing.
pub open spec fn capture_region(s: Seq<WindowV>, target: TargetV) -> Option<(Option<Seq<char>>, crate::protocol::Rect)> {
    match target {
        TargetV::Desktop => None,
        TargetV::Window(l) => match resolved_window(s, l) {
            Some(k) => Some((Some(s[k].window_id), crate::protocol::Rect { left: 0, top: 0, width: s[k].bounds.width, height: s[k].bounds.height })),
            None => None,
        },
        TargetV::Element { element_id, locator } => match resolved_element(s, element_id, locator) {
            Some((k, p)) => {
                let n = node_at(s[k].root, p);
                Some((Some(s[k].window_id), crate::protocol::Rect {
                    left: (n.bounds.left - s[k].bounds.left) as i32,
                    top: (n.bounds.top - s[k].bounds.top) as i32,
                    width: n.bounds.width,
                    height: n.bounds.height,
                }))
            },
            None => None,
        },
        TargetV::Region { window_id, bounds } => Some((window_id, bounds)),
    }
}

/// The region target a diagnostic capture of `target` uses (see `capture_region`).
pub fn build_diagnostic_capture_target(snapshot: &UiSnapshot, target: &ActionTarget) -> (r: Option<ActionTarget>)
    requires
        target@ matches TargetV::Element { element_id, locator } ==> relative_bounds_fit(snapshot@.windows, element_id, locator),
    ensures
        match capture_region(snapshot@.windows, target@) {
            Some((w, b)) => r matches Some(t) && t@ == (TargetV::Region { window_id: w, bounds: b }),
            None => r is None,
        },
{
    let ghost ws = windows_view(snapshot.windows@);
    assert(snapshot@.windows == ws);
    match target {
        ActionTarget::Desktop => None,
        ActionTarget::Window(l) => match resolve_window(snapshot, l) {
            Some(k) => {
                let w = &snapshot.windows[k];
                Some(ActionTarget::Region(crate::protocol::RegionTarget {
                    window_id: Some(WindowId(w.window_id.0.clone())),
                    bounds: crate::protocol::Rect { left: 0, top: 0, width: w.bounds.width, height: w.bounds.height },
                }))
            },
            None => None,
        },
        ActionTarget::Element(e) => match resolve_element(snapshot, &e.element_id, &e.locator) {
            Some((k, p)) => {
                proof {
                    lemma_resolved_element_valid(ws, opt_element_id_view(e.element_id), opt_locator_view(e.locator));
                    assert(path_view(p@).skip(0) =~= path_view(p@));
                }
                let w = &snapshot.windows[k];
                let n = subtree_at(&w.root, &p, 0);
                Some(ActionTarget::Region(crate::protocol::RegionTarget {
                    window_id: Some(WindowId(w.window_id.0.clone())),
                    bounds: crate::protocol::Rect {
                        left: n.bounds.left - w.bounds.left,
                        top: n.bounds.top - w.bounds.top,
                        width: n.bounds.width,
                        height: n.bounds.height,
                    },
                }))
            },
            None => None,
        },
        ActionTarget::Region(r) => Some(ActionTarget::Region(crate::protocol::RegionTarget {
            window_id: match &r.window_id {
                Some(w) => Some(WindowId(w.0.clone())),
                None => None,
            },
            bounds: r.bounds,
        })),
    }
}

/// The target with what the snapshot tells about it filled in where it was
/// left open: a window's id, title and pid; an element's id and locator;
/// the window of a region when the snapshot has exactly one.
pub open spec fn enriched_target(s: Seq<WindowV>, target: TargetV) -> TargetV {
    match target {
        TargetV::Window(l) => match resolved_window(s, l) {
            Some(k) => TargetV::Window(WindowLocatorV {
                window_id: if l.window_id is Some { l.window_id } else { Some(s[k].window_id) },
                title: if l.title is Some { l.title } else { Some(s[k].title) },
                pid: if l.pid is Some { l.pid } else { Some(s[k].pid) },
                ..l
            }),
            None => target,
        },
        TargetV::Element { element_id, locator } => match resolved_element(s, element_id, locator) {
            Some((k, p)) => TargetV::Element {
                element_id: if element_id is Some { element_id } else { Some(node_at(s[k].root, p).element_id) },
                locator: if locator is Some { locator } else { Some(node_at(s[k].root, p).locator) },
            },
            None => target,
        },
        TargetV::Region { window_id, bounds } => if window_id is None && s.len() == 1 {
            TargetV::Region { window_id: Some(s[0].window_id), bounds }
        } else {
            target
        },
        TargetV::Desktop => target,
    }
}

/// Fills in what the snapshot tells about an action's target (see `enriched_target`).
pub fn enrich_action_target(snapshot: &UiSnapshot, target: ActionTarget) -> (r: ActionTarget)
    ensures
        r@ == enriched_target(snapshot@.windows, target@),
{
    let ghost ws = windows_view(snapshot.windows@);
    assert(snapshot@.windows == ws);
    match target {
        ActionTarget::Window(l) => match resolve_window(snapshot, &l) {
            Some(k) => {
                let w = &snapshot.windows[k];
                let WindowLocator { window_id, title, pid, process_name, class_name } = l;
                ActionTarget::Window(WindowLocator {
                    window_id: match window_id {
                        Some(x) => Some(x),
                        None => Some(WindowId(w.window_id.0.clone())),
                    },
                    title: match title {
                        Some(x) => Some(x),
                        None => Some(w.title.clone()),
                    },
                    pid: match pid {
                        Some(x) => Some(x),
                        None => Some(w.pid),
                    },
                    process_name,
                    class_name,
                })
            },
            None => ActionTarget::Window(l),
        },
        ActionTarget::Element(e) => match resolve_element(snapshot, &e.element_id, &e.locator) {
            Some((k, p)) => {
                proof {
                    lemma_resolved_element_valid(ws, opt_element_id_view(e.element_id), opt_locator_view(e.locator));
                    assert(path_view(p@).skip(0) =~= path_view(p@));
                }
                let n = subtree_at(&snapshot.windows[k].root, &p, 0);
                let crate::protocol::ElementLocator { element_id, locator } = e;
                ActionTarget::Element(crate::protocol::ElementLocator {
                    element_id: match element_id {
                        Some(x) => Some(x),
                        None => Some(crate::protocol::ElementId(n.element_id.0.clone())),
                    },
                    locator: match locator {
                        Some(x) => Some(x),
                        None => Some(crate::copy::copy_locator(&n.locator)),
                    },
                })
            },
            None => ActionTarget::Element(e),
        },
        ActionTarget::Region(r) => {
            if r.window_id.is_none() && snapshot.windows.len() == 1 {
                ActionTarget::Region(crate::protocol::RegionTarget {
                    window_id: Some(WindowId(snapshot.windows[0].window_id.0.clone())),
                    bounds: r.bounds,
                })
            } else {
                ActionTarget::Region(r)
            }
        },
        ActionTarget::Desktop => ActionTarget::Desktop,
    }
}

// ---------------------------------------------------------------------
// Waiting

/// What a wait does after looking at the current snapshot.
#[derive(Clone, Copy, Debug, PartialEq, Eq, Structural)]
pub enum WaitStep {
    /// The condition held long enough.
    Completed,
    /// The deadline passed.
    TimedOut,
    /// Wait for the next revision, at most this many milliseconds.
    Wait { remaining_ms: u64 },
}

/// One look at the snapshot during a wait, at `now_ms` on a monotonic clock:
/// a condition that holds starts (or continues) a streak; a streak as long
/// as `stable_for_ms` completes the wait; a condition that fails ends the
/// streak; past the deadline the wait times out.
pub open spec fn wait_transition(since: Option<u64>, now_ms: u64, matched: bool, deadline_ms: u64, stable_for_ms: u64) -> (Option<u64>, WaitStep) {
    let streak = if matched {
        match since {
            Some(t) => Some(t),
            None => Some(now_ms),
        }
    } else {
        None
    };
    if matched && now_ms - streak.unwrap() >= stable_for_ms {
        (streak, WaitStep::Completed)
    } else if now_ms >= deadline_ms {
        (streak, WaitStep::TimedOut)
    } else {
        (streak, WaitStep::Wait { remaining_ms: (deadline_ms - now_ms) as u64 })
    }
}

/// Advances a wait by one look (see `wait_transition`).
pub fn wait_step(satisfied_since_ms: &mut Option<u64>, now_ms: u64, matched: bool, deadline_ms: u64, stable_for_ms: u64) -> (r: WaitStep)
    requires
        *old(satisfied_since_ms) matches Some(t) ==> t <= now_ms,
    ensures
        (*final(satisfied_since_ms), r) == wait_transition(*old(satisfied_since_ms), now_ms, matched, deadline_ms, stable_for_ms),
{
    if matched {
        if satisfied_since_ms.is_none() {
            *satisfied_since_ms = Some(now_ms);
        }
        let since = match *satisfied_since_ms {
            Some(t) => t,
            None => now_ms,
        };
        if now_ms - since >= stable_for_ms {
            return WaitStep::Completed;
        }
    } else {
        *satisfied_since_ms = None;
    }
    if now_ms >= deadline_ms {
        WaitStep::TimedOut
    } else {
        WaitStep::Wait { remaining_ms: deadline_ms - now_ms }
    }
}

/// A wait completes only on a look at which the condition holds and has
/// held, without a break, for the required time.
pub proof fn lemma_wait_completes_only_when_stable(since: Option<u64>, now_ms: u64, matched: bool, deadline_ms: u64, stable_for_ms: u64)
    ensures
        wait_transition(since, now_ms, matched, deadline_ms, stable_for_ms).1 is Completed ==> matched && now_ms - wait_transition(
            since,
            now_ms,
            matched,
            deadline_ms,
            stable_for_ms,
        ).0.unwrap() >= stable_for_ms,
        !matched ==> wait_transition(since, now_ms, matched, deadline_ms, stable_for_ms).0 is None,
{
}

/// The message of a wait's outcome: `condition `<Name>` satisfied` or
/// `condition `<Name>` was not satisfied before timeout`.
pub open spec fn wait_message(c: WaitCondition, satisfied: bool) -> Seq<char> {
    let name = match c {
        WaitCondition::Exists => "Exists"@,
        WaitCondition::Visible => "Visible"@,
        WaitCondition::Enabled => "Enabled"@,
        WaitCondition::Focused => "Focused"@,
        WaitCondition::Gone => "Gone"@,
    };
    "condition `"@ + name + (if satisfied { "` satisfied"@ } else { "` was not satisfied before timeout"@ })
}

/// The message of a wait's outcome (see `wait_message`).
pub fn wait_outcome_message(condition: &WaitCondition, satisfied: bool) -> (r: String)
    ensures
        r@ == wait_message(*condition, satisfied),
{
    let mut t = String::from_str("condition `");
    t.append(match condition {
        WaitCondition::Exists => "Exists",
        WaitCondition::Visible => "Visible",
        WaitCondition::Enabled => "Enabled",
        WaitCondition::Focused => "Focused",
        WaitCondition::Gone => "Gone",
    });
    if satisfied {
        t.append("` satisfied");
    } else {
        t.append("` was not satisfied before timeout");
    }
    t
}

/// The result of an action the backend did not finish in time.
pub fn backend_timeout_result(action: &ActionRequest) -> (r: crate::protocol::ActionResult)
    ensures
        r.action_id@ == action.action_id@,
        !r.ok,
        r.status == ActionStatus::TimedOut,
        r.message@ == "action `"@ + kind_name(action.kind@) + "` did not complete before timeout"@,
        r.artifacts@.len() == 0,
{
    let mut message = String::from_str("action `");
    message.append(action_kind_label(&action.kind));
    message.append("` did not complete before timeout");
    crate::protocol::ActionResult {
        action_id: ActionId(action.action_id.0.clone()),
        ok: false,
        status: ActionStatus::TimedOut,
        message,
        artifacts: Vec::new(),
    }
}

/// The session's snapshot, when it has one and no resync is pending.
pub fn fresh_snapshot(state: &crate::state::UiStateStore) -> (r: Option<UiSnapshot>)
    ensures
        match r {
            Some(s) => state@.resync is None && state@.snapshot == Some(s@),
            None => state@.resync is Some || state@.snapshot is None,
        },
{
    match (state.snapshot(), state.resync_reason()) {
        (Some(s), None) => Some(copy_snapshot(s)),
        _ => None,
    }
}

} // verus!
