//! The Windows observer's own logic, apart from the platform calls: stable
//! identifiers derived from semantic locators, carrying identifiers over
//! from one observation of a window to the next, and the diff between two
//! snapshots.
use vstd::prelude::*;

use crate::compare::{hex_digits, hex_text, join, join_exec, lowercase, text_slot, text_slot_exec, to_lowercase};
use crate::copy::{copy_node, copy_window};
use crate::model::{properties_view, DiffOpV, PropertyValueV};
use crate::protocol::{DiffOp, PropertyValue, UiSnapshot};
use crate::platform::BackendSessionParams;
use crate::diffspec::sort_windows;
use crate::state::sort_windows_exec;
use crate::copy::copy_profile;
use crate::text::str_equal;
use crate::decimal::{decimal, u64_to_decimal};
use crate::model::{strings_view, SegmentV};
use crate::protocol::{ElementId, ElementNode, LocatorSegment, WindowId, WindowState};
use crate::model::{empty_node_v, lemma_children_view, nodes_view, windows_view, NodeV, WindowV};
use crate::tree::{reparent, reparent_subtree, lemma_view_with_children};
use crate::text::{opt_string_equal, string_equal};
use crate::text::{opt_view, trim_owned, trimmed};

verus! {

// ---------------------------------------------------------------------
// Keys and identifiers

/// The 64-bit hash `std::collections::hash_map::DefaultHasher` gives a string.
pub uninterp spec fn default_hash(s: Seq<char>) -> u64;

/// Calls `BuildHasher::hash_one` on the default builder of `DefaultHasher`:
/// a fresh `DefaultHasher` (whose keys are fixed, so equal strings hash
/// equally in every run of the same build) fed the string, then finished.
/// The hash is only named.
#[verifier::external_body]
fn stable_hash(value: &str) -> (r: u64)
    ensures
        r == default_hash(value@),
{
    std::hash::BuildHasher::hash_one(&std::hash::BuildHasherDefault::<std::collections::hash_map::DefaultHasher>::default(), value)
}

/// A key part: trimmed and lowercase.
pub open spec fn key_text(s: Seq<char>) -> Seq<char> {
    lowercase(trimmed(s))
}

/// A key part of an optional text: `-` when absent or empty once normalized.
pub open spec fn opt_key_text(v: Option<Seq<char>>) -> Seq<char> {
    match v {
        Some(t) => if key_text(t).len() > 0 { key_text(t) } else { "-"@ },
        None => "-"@,
    }
}

/// Trimmed and lowercase.
pub fn normalize_for_key(value: &str) -> (r: String)
    ensures
        r@ == key_text(value@),
{
    let t = trim_owned(value);
    to_lowercase(t.as_str())
}

/// A key part of an optional text.
pub fn normalize_optional_for_key(value: Option<&str>) -> (r: String)
    ensures
        r@ == opt_key_text(match value {
            Some(t) => Some(t@),
            None => None,
        }),
{
    match value {
        Some(t) => {
            let k = normalize_for_key(t);
            if k.unicode_len() > 0 {
                k
            } else {
                String::from_str("-")
            }
        },
        None => String::from_str("-"),
    }
}

/// The key of a locator step.
pub open spec fn segment_key(s: SegmentV) -> Seq<char> {
    "type="@ + key_text(s.control_type) + "|class="@ + opt_key_text(s.class_name) + "|auto="@ + opt_key_text(
        s.automation_id,
    ) + "|name="@ + opt_key_text(s.name) + "|ord="@ + match s.sibling_ordinal {
        Some(o) => decimal(o as nat),
        None => "-"@,
    }
}

/// The text of an optional string, as a slice.
fn opt_str(v: &Option<String>) -> (r: Option<&str>)
    ensures
        match r {
            Some(t) => opt_view(*v) == Some(t@),
            None => v is None,
        },
{
    match v {
        Some(s) => Some(s.as_str()),
        None => None,
    }
}

/// The key of a locator step.
pub fn locator_segment_key(segment: &LocatorSegment) -> (r: String)
    ensures
        r@ == segment_key(segment@),
{
    let mut t = String::from_str("type=");
    let a = normalize_for_key(segment.control_type.as_str());
    t.append(a.as_str());
    t.append("|class=");
    let b = normalize_optional_for_key(opt_str(&segment.class_name));
    t.append(b.as_str());
    t.append("|auto=");
    let c = normalize_optional_for_key(opt_str(&segment.automation_id));
    t.append(c.as_str());
    t.append("|name=");
    let d = normalize_optional_for_key(opt_str(&segment.name));
    t.append(d.as_str());
    t.append("|ord=");
    match segment.sibling_ordinal {
        Some(o) => {
            let e = u64_to_decimal(o as u64);
            t.append(e.as_str());
        },
        None => {
            t.append("-");
        },
    }
    t
}

/// The key of a locator path: its steps' keys joined by `/`.
pub open spec fn path_key(path: Seq<SegmentV>) -> Seq<char> {
    join(path.map_values(|s: SegmentV| segment_key(s)), "/"@)
}

/// The key of a locator path.
pub fn locator_path_key(path: &Vec<LocatorSegment>) -> (r: String)
    ensures
        r@ == path_key(path@.map_values(|s: LocatorSegment| s@)),
{
    let ghost want = path@.map_values(|s: LocatorSegment| s@).map_values(|s: SegmentV| segment_key(s));
    let mut parts: Vec<String> = Vec::new();
    let mut i: usize = 0;
    while i < path.len()
        invariant
            i <= path@.len(),
            want == path@.map_values(|s: LocatorSegment| s@).map_values(|s: SegmentV| segment_key(s)),
            strings_view(parts@) == want.take(i as int),
        decreases path@.len() - i,
    {
        let ghost before = strings_view(parts@);
        parts.push(locator_segment_key(&path[i]));
        assert(strings_view(parts@) =~= before.push(want[i as int]));
        assert(want.take(i + 1) =~= want.take(i as int).push(want[i as int]));
        i = i + 1;
    }
    assert(want.take(path@.len() as int) =~= want);
    join_exec(&parts, "/")
}

/// The id of a window with a given fingerprint.
pub open spec fn window_id_for(fingerprint: Seq<char>) -> Seq<char> {
    "wnd-"@ + hex_digits(default_hash(fingerprint) as nat, 16)
}

/// The stable id of the window with this fingerprint.
pub fn window_id_from_fingerprint(window_fingerprint: &str) -> (r: WindowId)
    ensures
        r@ == window_id_for(window_fingerprint@),
{
    let mut t = String::from_str("wnd-");
    let h = hex_text(stable_hash(window_fingerprint), 16);
    t.append(h.as_str());
    WindowId(t)
}

/// The id of the element at a locator path in a window.
pub open spec fn element_id_for(fingerprint: Seq<char>, path: Seq<SegmentV>) -> Seq<char> {
    "elt-"@ + hex_digits(default_hash(fingerprint + "::"@ + path_key(path)) as nat, 16)
}

/// The stable id of the element at this locator path in the window with
/// this fingerprint.
pub fn element_id_from_locator(window_fingerprint: &str, path: &Vec<LocatorSegment>) -> (r: ElementId)
    ensures
        r@ == element_id_for(window_fingerprint@, path@.map_values(|s: LocatorSegment| s@)),
{
    let mut key = String::from_str(window_fingerprint);
    key.append("::");
    let p = locator_path_key(path);
    key.append(p.as_str());
    let mut t = String::from_str("elt-");
    let h = hex_text(stable_hash(key.as_str()), 16);
    t.append(h.as_str());
    ElementId(t)
}


// ---------------------------------------------------------------------
// Carrying identifiers over

/// `points` when `cond`, else zero.
pub open spec fn bonus(cond: bool, points: int) -> int {
    if cond { points } else { 0 }
}

/// Both present and equal.
pub open spec fn same_some<T>(a: Option<T>, b: Option<T>) -> bool {
    a is Some && a == b
}

/// How well a newly observed window matches a previously observed one:
/// none when their native handles or their process ids differ, or their
/// root control types do; else points for the handle (1000), the process
/// (200), the root class (80), the title (60), the root name (60) and the
/// root automation id (120), and none below 200 in all.
pub open spec fn shell_score(p: WindowV, c: WindowV) -> Option<int> {
    let hp = p.root.native_window_handle;
    let hc = c.root.native_window_handle;
    let both_handles = hp is Some && hc is Some;
    let both_pids = p.pid != 0 && c.pid != 0;
    if (both_handles && hp != hc) || (both_pids && p.pid != c.pid) || p.root.control_type != c.root.control_type {
        None
    } else {
        let s = bonus(both_handles, 1000) + bonus(both_pids, 200) + bonus(same_some(p.root.class_name, c.root.class_name), 80)
            + bonus(p.title == c.title && p.title.len() > 0, 60) + bonus(same_some(p.root.name, c.root.name), 60)
            + bonus(same_some(p.root.automation_id, c.root.automation_id), 120);
        if s >= 200 { Some(s) } else { None }
    }
}

/// The last step of a locator path, if any.
pub open spec fn last_step(path: Seq<SegmentV>) -> Option<SegmentV> {
    if path.len() == 0 { None } else { Some(path.last()) }
}

/// How well a newly observed element matches a previously observed one:
/// none when their control types or native handles differ; else 100 and
/// points for the handle (1000), automation id (300), class (120), name
/// (120), last locator step (40) and bounds (40), and none below 220.
pub open spec fn node_score(p: NodeV, c: NodeV) -> Option<int> {
    let both_handles = p.native_window_handle is Some && c.native_window_handle is Some;
    if p.control_type != c.control_type || (both_handles && p.native_window_handle != c.native_window_handle) {
        None
    } else {
        let s = 100 + bonus(both_handles, 1000) + bonus(same_some(p.automation_id, c.automation_id), 300) + bonus(
            same_some(p.class_name, c.class_name),
            120,
        ) + bonus(same_some(p.name, c.name), 120) + bonus(last_step(p.locator.path) == last_step(c.locator.path), 40)
            + bonus(p.bounds == c.bounds, 40);
        if s >= 220 { Some(s) } else { None }
    }
}

/// Both present and with equal text.
fn same_some_text(a: &Option<String>, b: &Option<String>) -> (r: bool)
    ensures
        r == same_some(opt_view(*a), opt_view(*b)),
{
    a.is_some() && opt_string_equal(a, b)
}

/// The score of a window pair (see `shell_score`).
pub fn window_match_score(previous: &WindowState, current: &WindowState) -> (r: Option<i32>)
    ensures
        match r {
            Some(x) => shell_score(previous@, current@) == Some(x as int),
            None => shell_score(previous@, current@) is None,
        },
{
    let hp = previous.root.native_window_handle;
    let hc = current.root.native_window_handle;
    let both_handles = hp.is_some() && hc.is_some();
    let both_pids = previous.pid != 0 && current.pid != 0;
    if (both_handles && hp != hc) || (both_pids && previous.pid != current.pid) || !string_equal(
        &previous.root.control_type,
        &current.root.control_type,
    ) {
        return None;
    }
    let mut score: i32 = 0;
    if both_handles {
        score = score + 1000;
    }
    if both_pids {
        score = score + 200;
    }
    if same_some_text(&previous.root.class_name, &current.root.class_name) {
        score = score + 80;
    }
    if string_equal(&previous.title, &current.title) && previous.title.unicode_len() > 0 {
        score = score + 60;
    }
    if same_some_text(&previous.root.name, &current.root.name) {
        score = score + 60;
    }
    if same_some_text(&previous.root.automation_id, &current.root.automation_id) {
        score = score + 120;
    }
    if score >= 200 {
        Some(score)
    } else {
        None
    }
}

/// Whether two locator steps are equal.
fn segment_equal(a: &LocatorSegment, b: &LocatorSegment) -> (r: bool)
    ensures
        r == (a@ == b@),
{
    string_equal(&a.control_type, &b.control_type) && opt_string_equal(&a.class_name, &b.class_name)
        && opt_string_equal(&a.automation_id, &b.automation_id) && opt_string_equal(&a.name, &b.name)
        && a.sibling_ordinal == b.sibling_ordinal
}

/// Whether two locator paths end in the same step (or are both empty).
fn same_last_step(a: &Vec<LocatorSegment>, b: &Vec<LocatorSegment>) -> (r: bool)
    ensures
        r == (last_step(a@.map_values(|s: LocatorSegment| s@)) == last_step(b@.map_values(|s: LocatorSegment| s@))),
{
    if a.len() == 0 || b.len() == 0 {
        return a.len() == 0 && b.len() == 0;
    }
    segment_equal(&a[a.len() - 1], &b[b.len() - 1])
}

/// The score of an element pair (see `node_score`).
pub fn element_match_score(previous: &ElementNode, current: &ElementNode) -> (r: Option<i32>)
    ensures
        match r {
            Some(x) => node_score(previous@, current@) == Some(x as int),
            None => node_score(previous@, current@) is None,
        },
{
    let both_handles = previous.native_window_handle.is_some() && current.native_window_handle.is_some();
    if !string_equal(&previous.control_type, &current.control_type) || (both_handles
        && previous.native_window_handle != current.native_window_handle) {
        return None;
    }
    let mut score: i32 = 100;
    if both_handles {
        score = score + 1000;
    }
    if same_some_text(&previous.automation_id, &current.automation_id) {
        score = score + 300;
    }
    if same_some_text(&previous.class_name, &current.class_name) {
        score = score + 120;
    }
    if same_some_text(&previous.name, &current.name) {
        score = score + 120;
    }
    if same_last_step(&previous.locator.path, &current.locator.path) {
        score = score + 40;
    }
    if previous.bounds == current.bounds {
        score = score + 40;
    }
    if score >= 220 {
        Some(score)
    } else {
        None
    }
}

/// Among the previous nodes from position `j` on that are not used, the one
/// matching `c` best; the last of equally good ones wins. `best` is the best
/// found before `j`.
pub open spec fn best_node(ps: Seq<NodeV>, c: NodeV, used: Seq<bool>, j: int, best: Option<(int, int)>) -> Option<(int, int)>
    decreases ps.len() - j,
{
    if j < 0 || j >= ps.len() {
        best
    } else if used[j] {
        best_node(ps, c, used, j + 1, best)
    } else {
        match node_score(ps[j], c) {
            Some(s) => best_node(ps, c, used, j + 1, if best is None || s >= best.unwrap().1 { Some((j, s)) } else { best }),
            None => best_node(ps, c, used, j + 1, best),
        }
    }
}

/// Among the previous windows from position `j` on that are not used, the
/// one matching `c` best; the last of equally good ones wins.
pub open spec fn best_window(ps: Seq<WindowV>, c: WindowV, used: Seq<bool>, j: int, best: Option<(int, int)>) -> Option<(int, int)>
    decreases ps.len() - j,
{
    if j < 0 || j >= ps.len() {
        best
    } else if used[j] {
        best_window(ps, c, used, j + 1, best)
    } else {
        match shell_score(ps[j], c) {
            Some(s) => best_window(ps, c, used, j + 1, if best is None || s >= best.unwrap().1 { Some((j, s)) } else { best }),
            None => best_window(ps, c, used, j + 1, best),
        }
    }
}

/// A best choice lies in range and is not used.
proof fn lemma_best_node(ps: Seq<NodeV>, c: NodeV, used: Seq<bool>, j: int, best: Option<(int, int)>)
    requires
        used.len() == ps.len(),
        best matches Some(b) ==> 0 <= b.0 < ps.len() && !used[b.0],
    ensures
        best_node(ps, c, used, j, best) matches Some(b) ==> 0 <= b.0 < ps.len() && !used[b.0],
    decreases ps.len() - j,
{
    if 0 <= j < ps.len() {
        if used[j] {
            lemma_best_node(ps, c, used, j + 1, best);
        } else {
            match node_score(ps[j], c) {
                Some(s) => lemma_best_node(ps, c, used, j + 1, if best is None || s >= best.unwrap().1 { Some((j, s)) } else { best }),
                None => lemma_best_node(ps, c, used, j + 1, best),
            }
        }
    }
}

/// A best choice lies in range and is not used.
proof fn lemma_best_window(ps: Seq<WindowV>, c: WindowV, used: Seq<bool>, j: int, best: Option<(int, int)>)
    requires
        used.len() == ps.len(),
        best matches Some(b) ==> 0 <= b.0 < ps.len() && !used[b.0],
    ensures
        best_window(ps, c, used, j, best) matches Some(b) ==> 0 <= b.0 < ps.len() && !used[b.0],
    decreases ps.len() - j,
{
    if 0 <= j < ps.len() {
        if used[j] {
            lemma_best_window(ps, c, used, j + 1, best);
        } else {
            match shell_score(ps[j], c) {
                Some(s) => lemma_best_window(ps, c, used, j + 1, if best is None || s >= best.unwrap().1 { Some((j, s)) } else { best }),
                None => lemma_best_window(ps, c, used, j + 1, best),
            }
        }
    }
}

/// Position of the best unused previous node for `c`.
fn best_node_exec(ps: &Vec<ElementNode>, c: &ElementNode, used: &Vec<bool>) -> (r: Option<usize>)
    requires
        used@.len() == ps@.len(),
    ensures
        match r {
            Some(k) => best_node(nodes_view(ps@), c@, used@, 0, None) matches Some(b) && b.0 == k && k < ps@.len() && !used@[k as int],
            None => best_node(nodes_view(ps@), c@, used@, 0, None) is None,
        },
{
    let ghost pv = nodes_view(ps@);
    let mut best: Option<(usize, i32)> = None;
    let mut j: usize = 0;
    while j < ps.len()
        invariant
            j <= ps@.len(),
            used@.len() == ps@.len(),
            pv == nodes_view(ps@),
            best_node(pv, c@, used@, 0, None) == best_node(pv, c@, used@, j as int, match best {
                Some((k, s)) => Some((k as int, s as int)),
                None => None,
            }),
            best matches Some((k, s)) ==> k < ps@.len() && !used@[k as int],
        decreases ps@.len() - j,
    {
        if !used[j] {
            match element_match_score(&ps[j], c) {
                Some(s) => {
                    let take = match best {
                        Some((_, bs)) => s >= bs,
                        None => true,
                    };
                    if take {
                        best = Some((j, s));
                    }
                },
                None => {},
            }
        }
        j = j + 1;
    }
    match best {
        Some((k, _)) => Some(k),
        None => None,
    }
}

/// Position of the best unused previous window for `c`.
fn best_window_exec(ps: &Vec<WindowState>, c: &WindowState, used: &Vec<bool>) -> (r: Option<usize>)
    requires
        used@.len() == ps@.len(),
    ensures
        match r {
            Some(k) => best_window(windows_view(ps@), c@, used@, 0, None) matches Some(b) && b.0 == k && k < ps@.len() && !used@[k as int],
            None => best_window(windows_view(ps@), c@, used@, 0, None) is None,
        },
{
    let ghost pv = windows_view(ps@);
    let mut best: Option<(usize, i32)> = None;
    let mut j: usize = 0;
    while j < ps.len()
        invariant
            j <= ps@.len(),
            used@.len() == ps@.len(),
            pv == windows_view(ps@),
            best_window(pv, c@, used@, 0, None) == best_window(pv, c@, used@, j as int, match best {
                Some((k, s)) => Some((k as int, s as int)),
                None => None,
            }),
            best matches Some((k, s)) ==> k < ps@.len() && !used@[k as int],
        decreases ps@.len() - j,
    {
        if !used[j] {
            match window_match_score(&ps[j], c) {
                Some(s) => {
                    let take = match best {
                        Some((_, bs)) => s >= bs,
                        None => true,
                    };
                    if take {
                        best = Some((j, s));
                    }
                },
                None => {},
            }
        }
        j = j + 1;
    }
    match best {
        Some((k, _)) => Some(k),
        None => None,
    }
}


/// All unused.
pub open spec fn none_used(n: nat) -> Seq<bool> {
    Seq::new(n, |i: int| false)
}

/// A newly observed subtree with identifiers carried over from the previous
/// observation: the node takes the previous node's id and the given parent;
/// each child, in order, takes over the best-matching previous child not
/// taken yet (see `best_node`) or, when none matches, keeps its ids with its
/// parent links set.
pub open spec fn stabilized(prev: NodeV, cur: NodeV, parent: Option<Seq<char>>) -> NodeV
    decreases cur, 1int, 0int,
{
    NodeV {
        element_id: prev.element_id,
        parent_id: parent,
        children: stabilized_children(prev, cur, 0, none_used(prev.children.len())),
        ..cur
    }
}

/// The children of `cur` from position `k` on, stabilized against those of
/// `prev`, with `used` marking the previous children already taken.
pub open spec fn stabilized_children(prev: NodeV, cur: NodeV, k: int, used: Seq<bool>) -> Seq<NodeV>
    decreases cur, 0int, cur.children.len() - k,
{
    if k < 0 || k >= cur.children.len() {
        Seq::empty()
    } else {
        let c = cur.children[k];
        match best_node(prev.children, c, used, 0, None) {
            Some(b) => seq![stabilized(prev.children[b.0], c, Some(prev.element_id))] + stabilized_children(
                prev,
                cur,
                k + 1,
                used.update(b.0, true),
            ),
            None => seq![reparent(c, Some(prev.element_id))] + stabilized_children(prev, cur, k + 1, used),
        }
    }
}

/// Carries identifiers over from `previous` into `current` (see `stabilized`).
pub fn stabilize_element(previous: &ElementNode, current: &mut ElementNode, parent_id: Option<&ElementId>)
    ensures
        final(current)@ == stabilized(previous@, old(current)@, match parent_id {
            Some(p) => Some(p@),
            None => None,
        }),
    decreases *old(current),
{
    let ghost before = *current;
    proof {
        lemma_children_view(before);
        lemma_children_view(*previous);
    }
    current.element_id = ElementId(previous.element_id.0.clone());
    current.parent_id = match parent_id {
        Some(p) => Some(ElementId(p.0.clone())),
        None => None,
    };
    let ghost mid = *current;
    let mut used: Vec<bool> = Vec::new();
    while used.len() < previous.children.len()
        invariant
            used@.len() <= previous.children@.len(),
            forall|x: int| 0 <= x < used@.len() ==> !#[trigger] used@[x],
        decreases previous.children@.len() - used@.len(),
    {
        used.push(false);
    }
    assert(used@ =~= none_used(previous@.children.len()));
    let ghost target = stabilized_children(previous@, before@, 0, used@);
    let mut k: usize = 0;
    assert(nodes_view(current.children@).take(0) =~= Seq::<NodeV>::empty());
    while k < current.children.len()
        invariant
            k <= current.children@.len(),
            current.children@.len() == before.children@.len(),
            before == *old(current),
            before@.children == nodes_view(before.children@),
            previous@.children == nodes_view(previous.children@),
            used@.len() == previous.children@.len(),
            current.element_id == mid.element_id,
            current.element_id@ == previous.element_id@,
            current.parent_id == mid.parent_id,
            current.backend == before.backend,
            current.control_type == before.control_type,
            current.class_name == before.class_name,
            current.name == before.name,
            current.automation_id == before.automation_id,
            current.native_window_handle == before.native_window_handle,
            current.bounds == before.bounds,
            current.locator == before.locator,
            current.properties == before.properties,
            current.states == before.states,
            current.confidence_bits == before.confidence_bits,
            nodes_view(current.children@).take(k as int) + stabilized_children(previous@, before@, k as int, used@) == target,
            forall|j: int| k <= j < current.children@.len() ==> #[trigger] current.children@[j] == before.children@[j],
        decreases current.children@.len() - k,
    {
        let ghost done = nodes_view(current.children@).take(k as int);
        let mut child = current.children.remove(k);
        proof {
            assert(child == before.children@[k as int]);
            assert(before@.children[k as int] == child@);
            assert(decreases_to!(before => before.children));
            assert(decreases_to!(before.children => before.children@));
            assert(decreases_to!(before.children@ => before.children@[k as int]));
        }
        let ghost c0 = child@;
        let ghost u0 = used@;
        let best = best_node_exec(&previous.children, &child, &used);
        match best {
            Some(idx) => {
                used.set(idx, true);
                stabilize_element(&previous.children[idx], &mut child, Some(&current.element_id));
            },
            None => {
                reparent_subtree(&mut child, Some(&current.element_id));
            },
        }
        proof {
            assert(stabilized_children(previous@, before@, k as int, u0) == seq![child@] + stabilized_children(previous@, before@, k + 1, used@));
        }
        current.children.insert(k, child);
        proof {
            assert(nodes_view(current.children@).take(k + 1) =~= done.push(child@));
            assert(done.push(child@) + stabilized_children(previous@, before@, k + 1, used@) =~= done + (seq![child@] + stabilized_children(previous@, before@, k + 1, used@)));
            assert forall|j: int| k + 1 <= j < current.children@.len() implies #[trigger] current.children@[j] == before.children@[j] by {
            }
        }
        k = k + 1;
    }
    proof {
        assert(stabilized_children(previous@, before@, k as int, used@) =~= Seq::<NodeV>::empty());
        assert(nodes_view(current.children@).take(k as int) =~= nodes_view(current.children@));
        lemma_view_with_children(mid, *current);
        assert(current@ =~= stabilized(previous@, before@, match parent_id {
            Some(p) => Some(p@),
            None => None,
        }));
    }
}


/// A newly observed window with identifiers carried over from a previous
/// observation of it.
pub open spec fn stabilized_window(p: WindowV, c: WindowV) -> WindowV {
    WindowV { window_id: p.window_id, root: stabilized(p.root, c.root, None), ..c }
}

/// Carries identifiers over from `previous` into `current`.
pub fn stabilize_window(previous: &WindowState, current: &mut WindowState)
    ensures
        final(current)@ == stabilized_window(previous@, old(current)@),
{
    current.window_id = WindowId(previous.window_id.0.clone());
    stabilize_element(&previous.root, &mut current.root, None);
}

/// The windows of a new observation from position `k` on, each taking over
/// the best-matching previous window not taken yet (see `best_window`).
pub open spec fn stabilized_windows(ps: Seq<WindowV>, cs: Seq<WindowV>, k: int, used: Seq<bool>) -> Seq<WindowV>
    decreases cs.len() - k,
{
    if k < 0 || k >= cs.len() {
        Seq::empty()
    } else {
        match best_window(ps, cs[k], used, 0, None) {
            Some(b) => seq![stabilized_window(ps[b.0], cs[k])] + stabilized_windows(ps, cs, k + 1, used.update(b.0, true)),
            None => seq![cs[k]] + stabilized_windows(ps, cs, k + 1, used),
        }
    }
}

/// Carries identifiers over from the previous observation's windows into
/// the new one's (see `stabilized_windows`).
pub fn stabilize_windows(previous: &Vec<WindowState>, current: &mut Vec<WindowState>)
    ensures
        windows_view(final(current)@) == stabilized_windows(windows_view(previous@), windows_view(old(current)@), 0, none_used(previous@.len())),
{
    let ghost pv = windows_view(previous@);
    let ghost cv = windows_view(current@);
    let mut used: Vec<bool> = Vec::new();
    while used.len() < previous.len()
        invariant
            used@.len() <= previous@.len(),
            forall|x: int| 0 <= x < used@.len() ==> !#[trigger] used@[x],
        decreases previous@.len() - used@.len(),
    {
        used.push(false);
    }
    assert(used@ =~= none_used(previous@.len()));
    let ghost target = stabilized_windows(pv, cv, 0, used@);
    let mut k: usize = 0;
    assert(windows_view(current@).take(0) =~= Seq::<WindowV>::empty());
    while k < current.len()
        invariant
            k <= current@.len(),
            current@.len() == cv.len(),
            cv == windows_view(old(current)@),
            pv == windows_view(previous@),
            used@.len() == previous@.len(),
            windows_view(current@).take(k as int) + stabilized_windows(pv, cv, k as int, used@) == target,
            forall|j: int| k <= j < current@.len() ==> (#[trigger] current@[j])@ == cv[j],
        decreases current@.len() - k,
    {
        let ghost done = windows_view(current@).take(k as int);
        let mut w = current.remove(k);
        let ghost u0 = used@;
        match best_window_exec(previous, &w, &used) {
            Some(idx) => {
                used.set(idx, true);
                stabilize_window(&previous[idx], &mut w);
            },
            None => {},
        }
        proof {
            assert(stabilized_windows(pv, cv, k as int, u0) == seq![w@] + stabilized_windows(pv, cv, k + 1, used@));
        }
        current.insert(k, w);
        proof {
            assert(windows_view(current@).take(k + 1) =~= done.push(w@));
            assert(done.push(w@) + stabilized_windows(pv, cv, k + 1, used@) =~= done + (seq![w@] + stabilized_windows(pv, cv, k + 1, used@)));
        }
        k = k + 1;
    }
    assert(stabilized_windows(pv, cv, k as int, used@) =~= Seq::<WindowV>::empty());
    assert(windows_view(current@).take(k as int) =~= windows_view(current@));
}


// ---------------------------------------------------------------------
// Snapshot diffs

/// The double with these bits is not a number.
pub open spec fn is_nan64(b: u64) -> bool {
    (b & 0x7ff0_0000_0000_0000u64) == 0x7ff0_0000_0000_0000u64 && (b & 0x000f_ffff_ffff_ffffu64) != 0
}

/// The double with these bits is a zero.
pub open spec fn is_zero64(b: u64) -> bool {
    (b & 0x7fff_ffff_ffff_ffffu64) == 0
}

/// Floating-point equality of two doubles given by their bits: no NaN equals
/// anything, and the two zeros are equal.
pub open spec fn float_eq(a: u64, b: u64) -> bool {
    !is_nan64(a) && !is_nan64(b) && (a == b || (is_zero64(a) && is_zero64(b)))
}

/// Floating-point equality on bit patterns.
fn float_eq_exec(a: u64, b: u64) -> (r: bool)
    ensures
        r == float_eq(a, b),
{
    let nan_a = (a & 0x7ff0_0000_0000_0000u64) == 0x7ff0_0000_0000_0000u64 && (a & 0x000f_ffff_ffff_ffffu64) != 0;
    let nan_b = (b & 0x7ff0_0000_0000_0000u64) == 0x7ff0_0000_0000_0000u64 && (b & 0x000f_ffff_ffff_ffffu64) != 0;
    let zeros = (a & 0x7fff_ffff_ffff_ffffu64) == 0 && (b & 0x7fff_ffff_ffff_ffffu64) == 0;
    !nan_a && !nan_b && (a == b || zeros)
}

/// Equality of property values, doubles compared as numbers.
pub open spec fn value_eq(a: PropertyValueV, b: PropertyValueV) -> bool {
    match (a, b) {
        (PropertyValueV::F64Bits(x), PropertyValueV::F64Bits(y)) => float_eq(x, y),
        _ => a == b,
    }
}

/// Same key, and values equal as `value_eq` says.
pub open spec fn entry_eq(x: (Seq<char>, PropertyValueV), y: (Seq<char>, PropertyValueV)) -> bool {
    x.0 == y.0 && value_eq(x.1, y.1)
}

/// Equality of property lists, doubles compared as numbers.
pub open spec fn props_eq(a: Seq<(Seq<char>, PropertyValueV)>, b: Seq<(Seq<char>, PropertyValueV)>) -> bool {
    a.len() == b.len() && forall|i: int| 0 <= i < a.len() ==> entry_eq(#[trigger] a[i], b[i])
}

/// Equality of subtrees, confidences and doubles compared as numbers.
pub open spec fn node_eq(a: NodeV, b: NodeV) -> bool
    decreases a, 1int, 0int,
{
    &&& a.element_id == b.element_id
    &&& a.parent_id == b.parent_id
    &&& a.backend == b.backend
    &&& a.control_type == b.control_type
    &&& a.class_name == b.class_name
    &&& a.name == b.name
    &&& a.automation_id == b.automation_id
    &&& a.native_window_handle == b.native_window_handle
    &&& a.bounds == b.bounds
    &&& a.locator == b.locator
    &&& props_eq(a.properties, b.properties)
    &&& a.states == b.states
    &&& float_eq(a.confidence_bits, b.confidence_bits)
    &&& a.children.len() == b.children.len()
    &&& children_eq(a, b, 0)
}

/// The children from position `i` on are equal pairwise.
pub open spec fn children_eq(a: NodeV, b: NodeV, i: int) -> bool
    decreases a, 0int, a.children.len() - i,
{
    if i < 0 || i >= a.children.len() || i >= b.children.len() {
        true
    } else {
        node_eq(a.children[i], b.children[i]) && children_eq(a, b, i + 1)
    }
}

/// Equality of strings lists.
fn strings_equal(a: &Vec<String>, b: &Vec<String>) -> (r: bool)
    ensures
        r == (strings_view(a@) == strings_view(b@)),
{
    if a.len() != b.len() {
        return false;
    }
    let mut i: usize = 0;
    while i < a.len()
        invariant
            i <= a@.len(),
            a@.len() == b@.len(),
            forall|j: int| 0 <= j < i ==> (#[trigger] a@[j])@ == b@[j]@,
        decreases a@.len() - i,
    {
        if !string_equal(&a[i], &b[i]) {
            assert(strings_view(a@)[i as int] != strings_view(b@)[i as int]);
            return false;
        }
        i = i + 1;
    }
    assert(strings_view(a@) =~= strings_view(b@));
    true
}

/// Equality of property values, doubles compared as numbers.
fn value_equal(a: &PropertyValue, b: &PropertyValue) -> (r: bool)
    ensures
        r == value_eq(a@, b@),
{
    match (a, b) {
        (PropertyValue::Bool(x), PropertyValue::Bool(y)) => *x == *y,
        (PropertyValue::I64(x), PropertyValue::I64(y)) => *x == *y,
        (PropertyValue::F64Bits(x), PropertyValue::F64Bits(y)) => float_eq_exec(*x, *y),
        (PropertyValue::String(x), PropertyValue::String(y)) => string_equal(x, y),
        (PropertyValue::StringList(x), PropertyValue::StringList(y)) => strings_equal(x, y),
        (PropertyValue::Rect(x), PropertyValue::Rect(y)) => *x == *y,
        (PropertyValue::Null, PropertyValue::Null) => true,
        _ => false,
    }
}

/// Equality of property lists.
fn props_equal(a: &Vec<(String, PropertyValue)>, b: &Vec<(String, PropertyValue)>) -> (r: bool)
    ensures
        r == props_eq(properties_view(a@), properties_view(b@)),
{
    let ghost av = properties_view(a@);
    let ghost bv = properties_view(b@);
    if a.len() != b.len() {
        return false;
    }
    let mut i: usize = 0;
    while i < a.len()
        invariant
            i <= a@.len(),
            a@.len() == b@.len(),
            av == properties_view(a@),
            bv == properties_view(b@),
            forall|j: int| 0 <= j < i ==> entry_eq(#[trigger] av[j], bv[j]),
        decreases a@.len() - i,
    {
        if !string_equal(&a[i].0, &b[i].0) || !value_equal(&a[i].1, &b[i].1) {
            assert(!entry_eq(av[i as int], bv[i as int]));
            return false;
        }
        i = i + 1;
    }
    true
}

/// Whether two optional ids have the same text.
fn opt_id_equal(a: &Option<ElementId>, b: &Option<ElementId>) -> (r: bool)
    ensures
        r == (match a {
            Some(x) => Some(x@),
            None => None::<Seq<char>>,
        } == match b {
            Some(x) => Some(x@),
            None => None::<Seq<char>>,
        }),
{
    match (a, b) {
        (Some(x), Some(y)) => string_equal(&x.0, &y.0),
        (None, None) => true,
        _ => false,
    }
}

/// Equality of subtrees (see `node_eq`).
pub fn node_equal(a: &ElementNode, b: &ElementNode) -> (r: bool)
    ensures
        r == node_eq(a@, b@),
    decreases a,
{
    proof {
        lemma_children_view(*a);
        lemma_children_view(*b);
    }
    let head = string_equal(&a.element_id.0, &b.element_id.0) && opt_id_equal(&a.parent_id, &b.parent_id)
        && a.backend == b.backend && string_equal(&a.control_type, &b.control_type) && opt_string_equal(
        &a.class_name,
        &b.class_name,
    ) && opt_string_equal(&a.name, &b.name) && opt_string_equal(&a.automation_id, &b.automation_id)
        && a.native_window_handle == b.native_window_handle && a.bounds == b.bounds && crate::agent::locator_equal(
        &a.locator,
        &b.locator,
    ) && props_equal(&a.properties, &b.properties) && a.states == b.states && float_eq_exec(
        a.confidence_bits,
        b.confidence_bits,
    ) && a.children.len() == b.children.len();
    if !head {
        return false;
    }
    let mut i: usize = 0;
    while i < a.children.len()
        invariant
            i <= a.children@.len(),
            a.children@.len() == b.children@.len(),
            a@.children == nodes_view(a.children@),
            b@.children == nodes_view(b.children@),
            head,
            node_eq(a@, b@) == children_eq(a@, b@, i as int),
        decreases a.children@.len() - i,
    {
        if !node_equal(&a.children[i], &b.children[i]) {
            return false;
        }
        i = i + 1;
    }
    true
}

/// The window outside its tree is the same: id, process, title, bounds,
/// backend and confidence bits.
pub open spec fn same_shell(l: WindowV, r: WindowV) -> bool {
    &&& l.window_id == r.window_id
    &&& l.pid == r.pid
    &&& l.process_name == r.process_name
    &&& l.title == r.title
    &&& l.bounds == r.bounds
    &&& l.backend == r.backend
    &&& l.confidence_bits == r.confidence_bits
}

/// Whether two windows are the same outside their trees.
pub fn same_window_shell(left: &WindowState, right: &WindowState) -> (r: bool)
    ensures
        r == same_shell(left@, right@),
{
    string_equal(&left.window_id.0, &right.window_id.0) && left.pid == right.pid && opt_string_equal(
        &left.process_name,
        &right.process_name,
    ) && string_equal(&left.title, &right.title) && left.bounds == right.bounds && left.backend == right.backend
        && left.confidence_bits == right.confidence_bits
}

/// Id of the first focused node in pre-order.
pub open spec fn focus_id(n: NodeV) -> Option<Seq<char>>
    decreases n, 1int, 0int,
{
    if n.states.focused {
        Some(n.element_id)
    } else {
        focus_id_from(n, 0)
    }
}

/// Id of the first focused node among the subtrees of the children from `i` on.
pub open spec fn focus_id_from(n: NodeV, i: int) -> Option<Seq<char>>
    decreases n, 0int, n.children.len() - i,
{
    if i < 0 || i >= n.children.len() {
        None
    } else {
        match focus_id(n.children[i]) {
            Some(x) => Some(x),
            None => focus_id_from(n, i + 1),
        }
    }
}

/// Id of the first focused node in pre-order.
pub fn focused_element_id(node: &ElementNode) -> (r: Option<ElementId>)
    ensures
        match r {
            Some(x) => focus_id(node@) == Some(x@),
            None => focus_id(node@) is None,
        },
    decreases node,
{
    if node.states.focused {
        return Some(ElementId(node.element_id.0.clone()));
    }
    proof {
        lemma_children_view(*node);
    }
    let mut i: usize = 0;
    while i < node.children.len()
        invariant
            i <= node.children@.len(),
            node@.children == nodes_view(node.children@),
            !node@.states.focused,
            focus_id(node@) == focus_id_from(node@, i as int),
        decreases node.children@.len() - i,
    {
        if let Some(x) = focused_element_id(&node.children[i]) {
            return Some(x);
        }
        i = i + 1;
    }
    None
}

/// `t` with `x` inserted at its sorted position unless already present.
pub open spec fn insert_unique(t: Seq<Seq<char>>, x: Seq<char>) -> Seq<Seq<char>> {
    if t.contains(x) {
        t
    } else {
        t.insert(text_slot(t, x, 0), x)
    }
}

/// The distinct ids, each inserted at its sorted position in turn.
pub open spec fn id_set(ids: Seq<Seq<char>>) -> Seq<Seq<char>>
    decreases ids.len(),
{
    if ids.len() == 0 {
        Seq::empty()
    } else {
        insert_unique(id_set(ids.drop_last()), ids.last())
    }
}

/// The ids of windows.
pub open spec fn ids_of(ws: Seq<WindowV>) -> Seq<Seq<char>> {
    ws.map_values(|w: WindowV| w.window_id)
}

/// Position of the last window with id `id` before position `i`.
pub open spec fn last_before(ws: Seq<WindowV>, id: Seq<char>, i: int) -> Option<int>
    decreases i,
{
    if i <= 0 || i > ws.len() {
        None
    } else if ws[i - 1].window_id == id {
        Some(i - 1)
    } else {
        last_before(ws, id, i - 1)
    }
}

/// The changes for one window id between two observations.
pub open spec fn ops_for(prev: Seq<WindowV>, next: Seq<WindowV>, id: Seq<char>) -> Seq<DiffOpV> {
    match (last_before(prev, id, prev.len() as int), last_before(next, id, next.len() as int)) {
        (None, Some(j)) => seq![DiffOpV::WindowAdded { window: next[j] }],
        (Some(_), None) => seq![DiffOpV::WindowRemoved { window_id: id }],
        (Some(i), Some(j)) => pair_ops(prev[i], next[j], id),
        (None, None) => Seq::empty(),
    }
}

/// The changes for the ids from position `k` on.
pub open spec fn ops_from(prev: Seq<WindowV>, next: Seq<WindowV>, ids: Seq<Seq<char>>, k: int) -> Seq<DiffOpV>
    decreases ids.len() - k,
{
    if k < 0 || k >= ids.len() {
        Seq::empty()
    } else {
        ops_for(prev, next, ids[k]) + ops_from(prev, next, ids, k + 1)
    }
}

/// The diff from one observation to the next: window by window, in id
/// order, a window that appeared is added, one that vanished removed, one
/// whose shell changed removed and added again, one whose tree changed has
/// its root replaced, and a change of focus is reported.
pub open spec fn snapshot_diff(prev: Seq<WindowV>, next: Seq<WindowV>) -> Seq<DiffOpV> {
    ops_from(prev, next, id_set(ids_of(prev) + ids_of(next)), 0)
}

/// Position of the last window with id `id`.
fn last_window(ws: &Vec<WindowState>, id: &str) -> (r: Option<usize>)
    ensures
        match r {
            Some(k) => k < ws@.len() && last_before(windows_view(ws@), id@, ws@.len() as int) == Some(k as int),
            None => last_before(windows_view(ws@), id@, ws@.len() as int) is None,
        },
{
    let ghost wv = windows_view(ws@);
    let mut i: usize = ws.len();
    while i > 0
        invariant
            i <= ws@.len(),
            wv == windows_view(ws@),
            last_before(wv, id@, ws@.len() as int) == last_before(wv, id@, i as int),
        decreases i,
    {
        if str_equal(ws[i - 1].window_id.0.as_str(), id) {
            return Some(i - 1);
        }
        i = i - 1;
    }
    None
}

/// Adds `x` at its sorted position unless present.
fn insert_unique_exec(t: &mut Vec<String>, x: &str)
    ensures
        strings_view(final(t)@) == insert_unique(strings_view(old(t)@), x@),
{
    let ghost tv = strings_view(t@);
    let mut i: usize = 0;
    while i < t.len()
        invariant
            i <= t@.len(),
            tv == strings_view(t@),
            forall|j: int| 0 <= j < i ==> (#[trigger] tv[j]) != x@,
        decreases t@.len() - i,
    {
        if str_equal(t[i].as_str(), x) {
            assert(tv.contains(x@)) by {
                assert(tv[i as int] == x@);
            }
            return;
        }
        i = i + 1;
    }
    assert(!tv.contains(x@));
    assert(strings_view(t@).take(t@.len() as int) =~= tv);
    let pos = text_slot_exec(t, t.len(), x);
    t.insert(pos, String::from_str(x));
    assert(strings_view(t@) =~= tv.insert(pos as int, x@));
}

/// Appends `op` to `ops`.
fn push_op(ops: &mut Vec<DiffOp>, op: DiffOp)
    ensures
        final(ops)@.map_values(|o: DiffOp| o@) == old(ops)@.map_values(|o: DiffOp| o@).push(op@),
{
    ops.push(op);
    assert(ops@.map_values(|o: DiffOp| o@) =~= old(ops)@.map_values(|o: DiffOp| o@).push(op@));
}

/// The changes for a window id seen in both observations.
pub open spec fn pair_ops(p: WindowV, n: WindowV, id: Seq<char>) -> Seq<DiffOpV> {
    let changed = !same_shell(p, n);
    (if changed {
        seq![DiffOpV::WindowRemoved { window_id: id }, DiffOpV::WindowAdded { window: n }]
    } else {
        Seq::empty()
    }) + (if !changed && !node_eq(p.root, n.root) {
        seq![DiffOpV::NodeReplaced { element_id: p.root.element_id, node: n.root }]
    } else {
        Seq::empty()
    }) + (if focus_id(p.root) != focus_id(n.root) {
        seq![DiffOpV::FocusChanged { window_id: id, element_id: focus_id(n.root) }]
    } else {
        Seq::empty()
    })
}

/// Two windows are the same shell exactly when they agree on everything
/// outside their trees: a window is the same shell as itself, and windows
/// that differ in id, process, title, bounds, backend or confidence are not.
pub proof fn lemma_same_shell_agrees(l: WindowV, r: WindowV)
    ensures
        same_shell(l, l),
        same_shell(l, r) ==> l.window_id == r.window_id && l.pid == r.pid && l.process_name == r.process_name
            && l.title == r.title && l.bounds == r.bounds && l.backend == r.backend && l.confidence_bits == r.confidence_bits,
        (l.window_id == r.window_id && l.pid == r.pid && l.process_name == r.process_name && l.title == r.title
            && l.bounds == r.bounds && l.backend == r.backend && l.confidence_bits == r.confidence_bits) ==> same_shell(l, r),
{
}

/// A window moved or resized is not the same shell as before.
pub proof fn lemma_moved_window_changes_shell(p: WindowV, n: WindowV)
    requires
        p.bounds != n.bounds,
    ensures
        !same_shell(p, n),
        !same_shell(n, p),
{
}

/// The search for a window id finds the only window that has it, and
/// nothing when none has it.
proof fn lemma_window_index_find(ws: Seq<WindowV>, id: Seq<char>, i: int, k: int)
    requires
        0 <= i,
    ensures
        (forall|j: int| i <= j < ws.len() ==> (#[trigger] ws[j]).window_id != id) ==> crate::diffspec::window_index(ws, id, i) is None,
        (i <= k < ws.len() && ws[k].window_id == id && forall|j: int| i <= j < ws.len() && j != k ==> (#[trigger] ws[j]).window_id != id)
            ==> crate::diffspec::window_index(ws, id, i) == Some(k),
    decreases ws.len() - i,
{
    if i < ws.len() {
        lemma_window_index_find(ws, id, i + 1, k);
    }
}

/// A window whose shell changed (moved, resized, retitled, ...) while its
/// focus stayed reaches subscribers whole: applying its diff operations to
/// windows holding the old one (and no other with its id) drops the old
/// window and adds the new one, with its new bounds, without error.
pub proof fn lemma_shell_change_applies(ws: Seq<WindowV>, k: int, n: WindowV)
    requires
        0 <= k < ws.len(),
        ws[k].window_id == n.window_id,
        forall|j: int| 0 <= j < ws.len() && j != k ==> (#[trigger] ws[j]).window_id != n.window_id,
        !same_shell(ws[k], n),
        focus_id(ws[k].root) == focus_id(n.root),
    ensures
        crate::diffspec::run_ops(ws, pair_ops(ws[k], n, n.window_id)) == (ws.remove(k).push(n), None::<crate::diffspec::StateErrorV>),
{
    let id = n.window_id;
    let ops = pair_ops(ws[k], n, id);
    assert(ops =~= seq![DiffOpV::WindowRemoved { window_id: id }, DiffOpV::WindowAdded { window: n }]);
    lemma_window_index_find(ws, id, 0, k);
    let ws1 = ws.remove(k);
    assert forall|j: int| 0 <= j < ws1.len() implies (#[trigger] ws1[j]).window_id != id by {
        if j < k {
            assert(ws1[j] == ws[j]);
        } else {
            assert(ws1[j] == ws[j + 1]);
        }
    }
    lemma_window_index_find(ws1, id, 0, 0);
    let rest = ops.drop_first();
    assert(rest =~= seq![DiffOpV::WindowAdded { window: n }]);
    assert(rest.drop_first() =~= Seq::<DiffOpV>::empty());
    assert(crate::diffspec::step(ws, ops[0]) == (ws1, None::<crate::diffspec::StateErrorV>));
    assert(crate::diffspec::upsert_window(ws1, n) == ws1.push(n));
    assert(crate::diffspec::step(ws1, rest[0]) == (ws1.push(n), None::<crate::diffspec::StateErrorV>));
    assert(crate::diffspec::run_ops(ws1.push(n), rest.drop_first()) == (ws1.push(n), None::<crate::diffspec::StateErrorV>));
    assert(crate::diffspec::run_ops(ws1, rest) == (ws1.push(n), None::<crate::diffspec::StateErrorV>));
}

/// The changes for a window seen twice: none when nothing changed; its
/// tree replaced by the new one when only the tree changed; and the new
/// focus reported whenever the focus moved.
pub proof fn lemma_pair_ops_cases(p: WindowV, n: WindowV, id: Seq<char>)
    ensures
        same_shell(p, n) && node_eq(p.root, n.root) && focus_id(p.root) == focus_id(n.root) ==> pair_ops(p, n, id).len() == 0,
        same_shell(p, n) && !node_eq(p.root, n.root) ==> pair_ops(p, n, id)[0] == (DiffOpV::NodeReplaced { element_id: p.root.element_id, node: n.root }),
        focus_id(p.root) != focus_id(n.root) ==> pair_ops(p, n, id).last() == (DiffOpV::FocusChanged { window_id: id, element_id: focus_id(n.root) }),
{
}

/// A window seen in both observations with other bounds is removed and
/// added again, carrying its new bounds.
pub proof fn lemma_moved_window_readded(p: WindowV, n: WindowV, id: Seq<char>)
    requires
        p.bounds != n.bounds,
    ensures
        pair_ops(p, n, id).len() >= 2,
        pair_ops(p, n, id)[0] == (DiffOpV::WindowRemoved { window_id: id }),
        pair_ops(p, n, id)[1] == (DiffOpV::WindowAdded { window: n }),
{
}

/// The last window before `i` with an id has that id.
proof fn lemma_last_before(ws: Seq<WindowV>, id: Seq<char>, i: int)
    ensures
        last_before(ws, id, i) matches Some(k) ==> 0 <= k < i && k < ws.len() && ws[k].window_id == id,
    decreases i,
{
    if 0 < i <= ws.len() && ws[i - 1].window_id != id {
        lemma_last_before(ws, id, i - 1);
    }
}

/// The slot for a text lies within the sequence.
proof fn lemma_text_slot_range(t: Seq<Seq<char>>, x: Seq<char>, i: int)
    requires
        0 <= i <= t.len(),
    ensures
        i <= crate::compare::text_slot(t, x, i) <= t.len(),
    decreases t.len() - i,
{
    if i < t.len() && !crate::text::seq_less(x, t[i]) {
        lemma_text_slot_range(t, x, i + 1);
    }
}

/// The sorted id set holds every id it was built from.
proof fn lemma_id_set_contains(ids: Seq<Seq<char>>, x: Seq<char>)
    requires
        ids.contains(x),
    ensures
        id_set(ids).contains(x),
    decreases ids.len(),
{
    let d = ids.drop_last();
    let t = id_set(d);
    if x == ids.last() {
        if !t.contains(x) {
            lemma_text_slot_range(t, x, 0);
            let k = crate::compare::text_slot(t, x, 0);
            assert(t.insert(k, x)[k] == x);
        }
    } else {
        let i = choose|i: int| 0 <= i < ids.len() && ids[i] == x;
        assert(d[i] == x);
        lemma_id_set_contains(d, x);
        if !t.contains(ids.last()) {
            lemma_text_slot_range(t, ids.last(), 0);
            let k = crate::compare::text_slot(t, ids.last(), 0);
            let u = t.insert(k, ids.last());
            let j = choose|j: int| 0 <= j < t.len() && t[j] == x;
            if j < k {
                assert(u[j] == x);
            } else {
                assert(u[j + 1] == x);
            }
        }
    }
}

/// The operations from position `k` on include those of every id there.
proof fn lemma_ops_from_contains(prev: Seq<WindowV>, next: Seq<WindowV>, ids: Seq<Seq<char>>, k: int, m: int, op: DiffOpV)
    requires
        0 <= k <= m < ids.len(),
        ops_for(prev, next, ids[m]).contains(op),
    ensures
        ops_from(prev, next, ids, k).contains(op),
    decreases m - k,
{
    crate::text::lemma_concat_contains(ops_for(prev, next, ids[k]), ops_from(prev, next, ids, k + 1), op);
    if k < m {
        lemma_ops_from_contains(prev, next, ids, k + 1, m, op);
    }
}

/// A window seen in both observations whose bounds changed is removed and
/// added again, with its new bounds, in the diff of the two observations.
pub proof fn lemma_diff_carries_moved_window(prev: Seq<WindowV>, next: Seq<WindowV>, id: Seq<char>)
    requires
        last_before(prev, id, prev.len() as int) is Some,
        last_before(next, id, next.len() as int) is Some,
        prev[last_before(prev, id, prev.len() as int)->0].bounds != next[last_before(next, id, next.len() as int)->0].bounds,
    ensures
        snapshot_diff(prev, next).contains(DiffOpV::WindowRemoved { window_id: id }),
        snapshot_diff(prev, next).contains(DiffOpV::WindowAdded { window: next[last_before(next, id, next.len() as int)->0] }),
{
    let i = last_before(prev, id, prev.len() as int)->0;
    let j = last_before(next, id, next.len() as int)->0;
    lemma_last_before(prev, id, prev.len() as int);
    let all = ids_of(prev) + ids_of(next);
    assert(all[i] == id);
    lemma_id_set_contains(all, id);
    let ids = id_set(all);
    let m = choose|m: int| 0 <= m < ids.len() && ids[m] == id;
    lemma_moved_window_readded(prev[i], next[j], id);
    let ops = ops_for(prev, next, id);
    assert(ops == pair_ops(prev[i], next[j], id));
    assert(ops[0] == (DiffOpV::WindowRemoved { window_id: id }));
    assert(ops[1] == (DiffOpV::WindowAdded { window: next[j] }));
    lemma_ops_from_contains(prev, next, ids, 0, m, DiffOpV::WindowRemoved { window_id: id });
    lemma_ops_from_contains(prev, next, ids, 0, m, DiffOpV::WindowAdded { window: next[j] });
}

/// Appends the changes for a window id seen in both observations.
fn emit_pair_ops(ops: &mut Vec<DiffOp>, pw: &WindowState, nw: &WindowState, id: &str)
    ensures
        final(ops)@.map_values(|o: DiffOp| o@) == old(ops)@.map_values(|o: DiffOp| o@) + pair_ops(pw@, nw@, id@),
{
    let ghost before = ops@.map_values(|o: DiffOp| o@);
    let changed = !same_window_shell(pw, nw);
    if changed {
        push_op(ops, DiffOp::WindowRemoved { window_id: WindowId(String::from_str(id)) });
        push_op(ops, DiffOp::WindowAdded { window: copy_window(nw) });
    }
    let ghost s1: Seq<DiffOpV> = if changed {
        seq![DiffOpV::WindowRemoved { window_id: id@ }, DiffOpV::WindowAdded { window: nw@ }]
    } else {
        Seq::empty()
    };
    assert(ops@.map_values(|o: DiffOp| o@) =~= before + s1);
    let replace = !changed && !node_equal(&pw.root, &nw.root);
    if replace {
        push_op(ops, DiffOp::NodeReplaced { element_id: ElementId(pw.root.element_id.0.clone()), node: copy_node(&nw.root) });
    }
    let ghost s2: Seq<DiffOpV> = if replace {
        seq![DiffOpV::NodeReplaced { element_id: pw@.root.element_id, node: nw@.root }]
    } else {
        Seq::empty()
    };
    assert(ops@.map_values(|o: DiffOp| o@) =~= before + s1 + s2);
    let pf = focused_element_id(&pw.root);
    let nf = focused_element_id(&nw.root);
    let moved = !opt_id_equal(&pf, &nf);
    if moved {
        push_op(ops, DiffOp::FocusChanged { window_id: WindowId(String::from_str(id)), element_id: nf });
    }
    proof {
        let s3: Seq<DiffOpV> = if focus_id(pw@.root) != focus_id(nw@.root) {
            seq![DiffOpV::FocusChanged { window_id: id@, element_id: focus_id(nw@.root) }]
        } else {
            Seq::empty()
        };
        assert(ops@.map_values(|o: DiffOp| o@) =~= before + s1 + s2 + s3);
        assert(pair_ops(pw@, nw@, id@) == s1 + s2 + s3);
        assert(before + s1 + s2 + s3 =~= before + (s1 + s2 + s3));
    }
}

/// Appends the changes for one window id.
fn emit_window_ops(ops: &mut Vec<DiffOp>, previous: &UiSnapshot, next: &UiSnapshot, id: &str)
    ensures
        final(ops)@.map_values(|o: DiffOp| o@) == old(ops)@.map_values(|o: DiffOp| o@) + ops_for(previous@.windows, next@.windows, id@),
{
    let ghost pv = windows_view(previous.windows@);
    let ghost nv = windows_view(next.windows@);
    assert(previous@.windows == pv && next@.windows == nv);
    let ghost before = ops@.map_values(|o: DiffOp| o@);
    let p = last_window(&previous.windows, id);
    let n = last_window(&next.windows, id);
    match (p, n) {
        (None, Some(b)) => {
            push_op(ops, DiffOp::WindowAdded { window: copy_window(&next.windows[b]) });
            assert(ops@.map_values(|o: DiffOp| o@) =~= before + ops_for(pv, nv, id@));
        },
        (Some(_), None) => {
            push_op(ops, DiffOp::WindowRemoved { window_id: WindowId(String::from_str(id)) });
            assert(ops@.map_values(|o: DiffOp| o@) =~= before + ops_for(pv, nv, id@));
        },
        (Some(a), Some(b)) => {
            emit_pair_ops(ops, &previous.windows[a], &next.windows[b], id);
            assert(pv[a as int] == previous.windows@[a as int]@);
            assert(nv[b as int] == next.windows@[b as int]@);
        },
        (None, None) => {
            assert(ops@.map_values(|o: DiffOp| o@) =~= before + ops_for(pv, nv, id@));
        },
    }
}

/// The diff between two observations of the desktop (see `snapshot_diff`).
pub fn diff_snapshots(previous: &UiSnapshot, next: &UiSnapshot) -> (r: Vec<DiffOp>)
    ensures
        r@.map_values(|o: DiffOp| o@) == snapshot_diff(previous@.windows, next@.windows),
{
    let ghost pv = windows_view(previous.windows@);
    let ghost nv = windows_view(next.windows@);
    assert(previous@.windows == pv && next@.windows == nv);
    let ghost all = ids_of(pv) + ids_of(nv);
    let mut ids: Vec<String> = Vec::new();
    let mut i: usize = 0;
    assert(all.take(0) =~= Seq::<Seq<char>>::empty());
    while i < previous.windows.len()
        invariant
            i <= previous.windows@.len(),
            all == ids_of(pv) + ids_of(nv),
            pv == windows_view(previous.windows@),
            strings_view(ids@) == id_set(all.take(i as int)),
        decreases previous.windows@.len() - i,
    {
        insert_unique_exec(&mut ids, previous.windows[i].window_id.0.as_str());
        assert(all.take(i + 1).drop_last() =~= all.take(i as int));
        assert(all[i as int] == previous.windows@[i as int].window_id@);
        i = i + 1;
    }
    let mut j: usize = 0;
    while j < next.windows.len()
        invariant
            j <= next.windows@.len(),
            all == ids_of(pv) + ids_of(nv),
            pv.len() == previous.windows@.len(),
            nv == windows_view(next.windows@),
            strings_view(ids@) == id_set(all.take((previous.windows@.len() + j) as int)),
        decreases next.windows@.len() - j,
    {
        insert_unique_exec(&mut ids, next.windows[j].window_id.0.as_str());
        let ghost n = (previous.windows@.len() + j) as int;
        assert(all.take(n + 1).drop_last() =~= all.take(n));
        assert(all[n] == next.windows@[j as int].window_id@);
        j = j + 1;
    }
    assert(all.take((previous.windows@.len() + next.windows@.len()) as int) =~= all);
    let ghost idv = strings_view(ids@);
    let mut ops: Vec<DiffOp> = Vec::new();
    let mut k: usize = 0;
    while k < ids.len()
        invariant
            k <= ids@.len(),
            idv == strings_view(ids@),
            pv == windows_view(previous.windows@),
            nv == windows_view(next.windows@),
            ops@.map_values(|o: DiffOp| o@) + ops_from(pv, nv, idv, k as int) == ops_from(pv, nv, idv, 0),
        decreases ids@.len() - k,
    {
        let ghost before = ops@.map_values(|o: DiffOp| o@);
        emit_window_ops(&mut ops, previous, next, ids[k].as_str());
        proof {
            assert(ops_from(pv, nv, idv, k as int) == ops_for(pv, nv, idv[k as int]) + ops_from(pv, nv, idv, k + 1));
            assert(before + ops_for(pv, nv, idv[k as int]) + ops_from(pv, nv, idv, k + 1) =~= before + ops_from(pv, nv, idv, k as int));
        }
        k = k + 1;
    }
    assert(ops_from(pv, nv, idv, k as int) =~= Seq::<DiffOpV>::empty());
    assert(ops@.map_values(|o: DiffOp| o@) + Seq::<DiffOpV>::empty() =~= ops@.map_values(|o: DiffOp| o@));
    ops
}


// ---------------------------------------------------------------------
// Observations

/// A snapshot of the session from captured windows, sorted by id, stamped
/// with the current time.
pub fn snapshot_from_windows(params: &BackendSessionParams, rev: u64, windows: Vec<WindowState>) -> (r: UiSnapshot)
    ensures
        r@.session_id == params.session_id@,
        r@.rev == rev,
        r@.profile == params.profile@,
        r@.windows == sort_windows(windows_view(windows@)),
{
    let mut windows = windows;
    sort_windows_exec(&mut windows);
    UiSnapshot {
        session_id: crate::protocol::SessionId(params.session_id.0.clone()),
        rev,
        profile: copy_profile(&params.profile),
        captured_at_unix_ms: crate::clock::now_unix_ms(),
        windows,
    }
}

/// The window carries the native handle `hwnd`.
pub open spec fn has_handle(w: WindowV, hwnd: u64) -> bool {
    w.root.native_window_handle == Some(hwnd)
}

/// Position of the first window with native handle `hwnd`, from `i` on.
pub open spec fn handle_index(ws: Seq<WindowV>, hwnd: u64, i: int) -> Option<int>
    decreases ws.len() - i,
{
    if i < 0 || i >= ws.len() {
        None
    } else if has_handle(ws[i], hwnd) {
        Some(i)
    } else {
        handle_index(ws, hwnd, i + 1)
    }
}

/// The windows without those carrying native handle `hwnd`.
pub open spec fn without_handle(ws: Seq<WindowV>, hwnd: u64) -> Seq<WindowV>
    decreases ws.len(),
{
    if ws.len() == 0 {
        ws
    } else if has_handle(ws.last(), hwnd) {
        without_handle(ws.drop_last(), hwnd)
    } else {
        without_handle(ws.drop_last(), hwnd).push(ws.last())
    }
}

/// The windows after one of them, with native handle `hwnd`, was observed
/// again: when it was seen (`refreshed`), the first window with that handle
/// is replaced by it with identifiers carried over, or it is appended when
/// none had the handle; when it is gone, every window with the handle is dropped.
pub open spec fn window_refreshed(ws: Seq<WindowV>, hwnd: u64, refreshed: Option<WindowV>) -> Seq<WindowV> {
    match refreshed {
        Some(w) => match handle_index(ws, hwnd, 0) {
            Some(k) => ws.update(k, stabilized_window(ws[k], w)),
            None => ws.push(w),
        },
        None => without_handle(ws, hwnd),
    }
}

/// Applies a refreshed observation of one window (see `window_refreshed`).
pub fn apply_window_refresh(windows: &mut Vec<WindowState>, hwnd: u64, refreshed: Option<WindowState>)
    ensures
        windows_view(final(windows)@) == window_refreshed(windows_view(old(windows)@), hwnd, match refreshed {
            Some(w) => Some(w@),
            None => None,
        }),
{
    let ghost wv = windows_view(windows@);
    match refreshed {
        Some(mut w) => {
            let ghost target = window_refreshed(wv, hwnd, Some(w@));
            let ghost rv = w@;
            let mut i: usize = 0;
            while i < windows.len()
                invariant
                    i <= windows@.len(),
                    wv == windows_view(windows@),
                    wv == windows_view(old(windows)@),
                    w@ == rv,
                    refreshed matches Some(x) && x@ == rv,
                    target == window_refreshed(wv, hwnd, Some(rv)),
                    handle_index(wv, hwnd, 0) == handle_index(wv, hwnd, i as int),
                decreases windows@.len() - i,
            {
                if windows[i].root.native_window_handle == Some(hwnd) {
                    assert(has_handle(wv[i as int], hwnd));
                    stabilize_window(&windows[i], &mut w);
                    let ghost nw = w@;
                    windows.set(i, w);
                    assert(windows_view(windows@) =~= wv.update(i as int, nw));
                    assert(handle_index(wv, hwnd, i as int) == Some(i as int));
                    assert(nw == stabilized_window(wv[i as int], rv));
                    return;
                }
                i = i + 1;
            }
            windows.push(w);
            assert(windows_view(windows@) =~= wv.push(rv));
        },
        None => {
            let mut kept: Vec<WindowState> = Vec::new();
            let mut i: usize = 0;
            assert(wv.take(0) =~= Seq::<WindowV>::empty());
            while i < windows.len()
                invariant
                    i <= windows@.len(),
                    wv == windows_view(windows@),
                    windows_view(kept@) == without_handle(wv.take(i as int), hwnd),
                decreases windows@.len() - i,
            {
                proof {
                    assert(wv.take(i + 1).drop_last() =~= wv.take(i as int));
                    assert(wv.take(i + 1).last() == wv[i as int]);
                }
                if windows[i].root.native_window_handle != Some(hwnd) {
                    let ghost before = windows_view(kept@);
                    kept.push(copy_window(&windows[i]));
                    assert(windows_view(kept@) =~= before.push(wv[i as int]));
                }
                i = i + 1;
            }
            assert(wv.take(i as int) =~= wv);
            *windows = kept;
        },
    }
}

/// Applies a refreshed observation of the desktop: the new windows, with
/// identifiers carried over from the previous ones (see `stabilized_windows`).
pub fn apply_desktop_refresh(windows: &mut Vec<WindowState>, refreshed: Vec<WindowState>)
    ensures
        windows_view(final(windows)@) == stabilized_windows(windows_view(old(windows)@), windows_view(refreshed@), 0, none_used(old(windows)@.len())),
{
    let mut refreshed = refreshed;
    stabilize_windows(windows, &mut refreshed);
    *windows = refreshed;
}


/// Stabilized children are as many as the observed ones from `k` on.
proof fn lemma_stabilized_children_len(prev: NodeV, cur: NodeV, k: int, used: Seq<bool>)
    requires
        0 <= k <= cur.children.len(),
    ensures
        stabilized_children(prev, cur, k, used).len() == cur.children.len() - k,
    decreases cur.children.len() - k,
{
    if k < cur.children.len() {
        let c = cur.children[k];
        match best_node(prev.children, c, used, 0, None) {
            Some(b) => lemma_stabilized_children_len(prev, cur, k + 1, used.update(b.0, true)),
            None => lemma_stabilized_children_len(prev, cur, k + 1, used),
        }
    }
}

/// Carrying identifiers over changes only the node's id and parent link:
/// its other fields stay as observed, and it keeps as many children.
pub proof fn lemma_stabilized_keeps_observation(prev: NodeV, cur: NodeV, parent: Option<Seq<char>>)
    ensures
        stabilized(prev, cur, parent).element_id == prev.element_id,
        stabilized(prev, cur, parent).parent_id == parent,
        stabilized(prev, cur, parent).control_type == cur.control_type,
        stabilized(prev, cur, parent).name == cur.name,
        stabilized(prev, cur, parent).locator == cur.locator,
        stabilized(prev, cur, parent).properties == cur.properties,
        stabilized(prev, cur, parent).states == cur.states,
        stabilized(prev, cur, parent).bounds == cur.bounds,
        stabilized(prev, cur, parent).children.len() == cur.children.len(),
{
    lemma_stabilized_children_len(prev, cur, 0, none_used(prev.children.len()));
}

} // verus!
